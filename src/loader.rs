//! Turning the rules read from files into the engine's ordered rule list.

use vstd::prelude::*;
use crate::rule::Rule;
use crate::text::{has_suffix, to_owned_string, ends_with};

verus! {

/// `s` with `r` put after every rule whose priority is at least `r`'s.
pub open spec fn insert_by_priority(s: Seq<Rule>, r: Rule) -> Seq<Rule>
    decreases s.len(),
{
    if s.len() == 0 {
        seq![r]
    } else if s.last().priority >= r.priority {
        s.push(r)
    } else {
        insert_by_priority(s.drop_last(), r).push(s.last())
    }
}

/// The rules ordered by priority, highest first; rules of equal priority
/// keep the order they were given in.
pub open spec fn sorted_by_priority(s: Seq<Rule>) -> Seq<Rule>
    decreases s.len(),
{
    if s.len() == 0 {
        s
    } else {
        insert_by_priority(sorted_by_priority(s.drop_last()), s.last())
    }
}

/// Priorities never increase along the sequence.
pub open spec fn priority_ordered(s: Seq<Rule>) -> bool {
    forall|i: int, j: int| 0 <= i < j < s.len() ==> s[i].priority >= s[j].priority
}

proof fn lemma_insert_at(s: Seq<Rule>, r: Rule, j: int)
    requires
        0 <= j <= s.len(),
        j == 0 || s[j - 1].priority >= r.priority,
        forall|k: int| j <= k < s.len() ==> s[k].priority < r.priority,
    ensures
        insert_by_priority(s, r) == s.take(j) + seq![r] + s.skip(j),
    decreases s.len(),
{
    if s.len() == 0 {
        assert(s.take(j) + seq![r] + s.skip(j) =~= seq![r]);
    } else if j == s.len() {
        assert(s.take(j) + seq![r] + s.skip(j) =~= s.push(r));
    } else {
        let t = s.drop_last();
        lemma_insert_at(t, r, j);
        assert(t.take(j) + seq![r] + t.skip(j) + seq![s.last()] =~= s.take(j) + seq![r] + s.skip(j));
    }
}

proof fn lemma_insert_ordered(s: Seq<Rule>, r: Rule)
    requires
        priority_ordered(s),
    ensures
        priority_ordered(insert_by_priority(s, r)),
        insert_by_priority(s, r).len() == s.len() + 1,
    decreases s.len(),
{
    if s.len() > 0 && s.last().priority < r.priority {
        let t = s.drop_last();
        lemma_insert_ordered(t, r);
        let u = insert_by_priority(t, r);
        assert forall|i: int| 0 <= i < u.len() implies u[i].priority >= s.last().priority by {
            // every element of u is r or an element of t
            if t.len() == 0 {
            } else if t.last().priority >= r.priority {
                assert(u == t.push(r));
            } else {
                lemma_insert_members(t, r, i);
            }
        }
    }
}

proof fn lemma_insert_members(s: Seq<Rule>, r: Rule, i: int)
    requires
        0 <= i < insert_by_priority(s, r).len(),
        insert_by_priority(s, r).len() == s.len() + 1,
    ensures
        insert_by_priority(s, r)[i] == r || exists|k: int| 0 <= k < s.len() && s[k] == insert_by_priority(s, r)[i],
    decreases s.len(),
{
    if s.len() > 0 && s.last().priority < r.priority {
        let t = s.drop_last();
        if i < s.len() {
            lemma_insert_len(t, r);
            lemma_insert_members(t, r, i);
            if insert_by_priority(t, r)[i] != r {
                let k = choose|k: int| 0 <= k < t.len() && t[k] == insert_by_priority(t, r)[i];
                assert(s[k] == t[k]);
            }
        } else {
            assert(s[s.len() - 1] == insert_by_priority(s, r)[i]);
        }
    } else if s.len() > 0 {
        if i < s.len() {
            assert(s[i] == insert_by_priority(s, r)[i]);
        }
    }
}

proof fn lemma_insert_len(s: Seq<Rule>, r: Rule)
    ensures
        insert_by_priority(s, r).len() == s.len() + 1,
    decreases s.len(),
{
    if s.len() > 0 && s.last().priority < r.priority {
        lemma_insert_len(s.drop_last(), r);
    }
}

/// Sorting leaves the rules ordered by priority, highest first, and keeps their number.
pub proof fn lemma_sorted_is_ordered(s: Seq<Rule>)
    ensures
        priority_ordered(sorted_by_priority(s)),
        sorted_by_priority(s).len() == s.len(),
    decreases s.len(),
{
    if s.len() > 0 {
        lemma_sorted_is_ordered(s.drop_last());
        lemma_insert_ordered(sorted_by_priority(s.drop_last()), s.last());
    }
}

/// Orders rules by priority, highest first; rules of equal priority keep their order.
pub fn sort_by_priority(rules: Vec<Rule>) -> (r: Vec<Rule>)
    ensures
        r@ == sorted_by_priority(rules@),
{
    let ghost given = rules@;
    let n: usize = rules.len();
    let mut rest = rules;
    let mut out: Vec<Rule> = Vec::new();
    let mut i: usize = 0;
    while rest.len() > 0
        invariant
            i + rest.len() == n,
            n == given.len(),
            rest@ == given.skip(i as int),
            out@ == sorted_by_priority(given.take(i as int)),
            priority_ordered(out@),
        decreases rest.len(),
    {
        let r = rest.remove(0);
        proof {
            assert(given.take(i + 1).drop_last() =~= given.take(i as int));
            assert(rest@ =~= given.skip(i + 1));
        }
        let mut j: usize = out.len();
        while j > 0 && out[j - 1].priority < r.priority
            invariant
                j <= out.len(),
                forall|k: int| j <= k < out.len() ==> out@[k].priority < r.priority,
            decreases j,
        {
            j = j - 1;
        }
        proof {
            lemma_insert_at(out@, r, j as int);
            lemma_insert_ordered(out@, r);
            assert(out@.insert(j as int, r) =~= out@.take(j as int) + seq![r] + out@.skip(j as int));
        }
        out.insert(j, r);
        i = i + 1;
    }
    assert(given.take(given.len() as int) =~= given);
    out
}

/// Whether a directory entry is a rules file: its name ends in `.json`.
pub fn is_rules_file_name(name: &str) -> (r: bool)
    ensures
        r == has_suffix(name@, ".json"@),
{
    ends_with(name, ".json")
}

/// Marks every rule as read from `path`.
pub fn stamp_source(rules: &mut Vec<Rule>, path: &str)
    ensures
        final(rules)@.len() == old(rules)@.len(),
        forall|i: int|
            0 <= i < final(rules)@.len() ==> {
                &&& final(rules)@[i].source_file matches Some(s) && s@ == path@
                &&& #[trigger] final(rules)@[i] == (Rule { source_file: final(rules)@[i].source_file, ..old(rules)@[i] })
            },
{
    let mut i: usize = 0;
    while i < rules.len()
        invariant
            i <= rules.len(),
            rules@.len() == old(rules)@.len(),
            forall|k: int|
                0 <= k < i ==> {
                    &&& rules@[k].source_file matches Some(s) && s@ == path@
                    &&& #[trigger] rules@[k] == (Rule { source_file: rules@[k].source_file, ..old(rules)@[k] })
                },
            forall|k: int| i <= k < rules.len() ==> #[trigger] rules@[k] == old(rules)@[k],
        decreases rules.len() - i,
    {
        rules[i].source_file = Some(to_owned_string(path));
        i = i + 1;
    }
}

/// The rules of several files, in the order the files are given.
pub fn concat_rules(files: Vec<Vec<Rule>>) -> (r: Vec<Rule>)
    ensures
        r@ == files@.map_values(|f: Vec<Rule>| f@).flatten(),
{
    let ghost given = files@.map_values(|f: Vec<Rule>| f@);
    let n: usize = files.len();
    let mut rest = files;
    let mut out: Vec<Rule> = Vec::new();
    let mut i: usize = 0;
    while rest.len() > 0
        invariant
            i + rest.len() == n,
            n == given.len(),
            rest@.map_values(|f: Vec<Rule>| f@) == given.skip(i as int),
            out@ == given.take(i as int).flatten(),
        decreases rest.len(),
    {
        let ghost before = rest@;
        let mut f = rest.remove(0);
        proof {
            assert(given.take(i + 1).drop_last() =~= given.take(i as int));
            assert(before.map_values(|f: Vec<Rule>| f@)[0] == before[0]@);
            assert(given.skip(i as int)[0] == given[i as int]);
            assert(given[i as int] == f@);
            assert(rest@ =~= before.subrange(1, before.len() as int));
            assert forall|k: int| 0 <= k < rest@.len() implies #[trigger] rest@[k]@ == given.skip(i + 1)[k] by {
                assert(rest@[k] == before[k + 1]);
                assert(before.map_values(|f: Vec<Rule>| f@)[k + 1] == before[k + 1]@);
                assert(given.skip(i as int)[k + 1] == given[i + 1 + k]);
            }
            assert(rest@.map_values(|f: Vec<Rule>| f@) =~= given.skip(i + 1));
            given.take(i + 1).lemma_flatten_and_flatten_alt_are_equivalent();
            given.take(i as int).lemma_flatten_and_flatten_alt_are_equivalent();
        }
        out.append(&mut f);
        i = i + 1;
    }
    assert(given.take(given.len() as int) =~= given);
    out
}

} // verus!
