//! Records of rule evaluations and the bounded history that keeps them.

use vstd::prelude::*;
use crate::text::{copy_string, text_eq};

verus! {

/// What one log entry holds, as plain values.
pub struct LogRecord {
    pub rule_id: Seq<char>,
    pub rule_type: Seq<char>,
    pub input: Seq<char>,
    pub output: Seq<char>,
    pub matched: bool,
}

/// Record of one rule evaluation during an `apply` pass.
#[derive(Debug, Clone)]
pub struct TransformationLog {
    /// The rule that was evaluated.
    pub rule_id: String,
    /// Its kind: `Regex`, `Shell` or `Function`.
    pub rule_type: String,
    /// Text before the rule.
    pub input: String,
    /// Text after the rule.
    pub output: String,
    /// Whether the rule changed the text.
    pub matched: bool,
}

impl View for TransformationLog {
    type V = LogRecord;

    open spec fn view(&self) -> LogRecord {
        LogRecord {
            rule_id: self.rule_id@,
            rule_type: self.rule_type@,
            input: self.input@,
            output: self.output@,
            matched: self.matched,
        }
    }
}

impl TransformationLog {
    /// A copy of this entry.
    pub fn duplicate(&self) -> (r: TransformationLog)
        ensures
            r@ == self@,
    {
        TransformationLog {
            rule_id: copy_string(&self.rule_id),
            rule_type: copy_string(&self.rule_type),
            input: copy_string(&self.input),
            output: copy_string(&self.output),
            matched: self.matched,
        }
    }
}

/// The entries of a log, as plain values.
pub open spec fn records(v: Seq<TransformationLog>) -> Seq<LogRecord> {
    v.map_values(|e: TransformationLog| e@)
}

/// The last `max` entries of `s` (all of them when there are fewer).
pub open spec fn keep_last<A>(s: Seq<A>, max: nat) -> Seq<A> {
    if s.len() > max {
        s.subrange(s.len() - max, s.len() as int)
    } else {
        s
    }
}

/// Trimming to the cap after every push keeps what trimming once at the end keeps.
pub proof fn lemma_keep_last_push<A>(s: Seq<A>, x: A, max: nat)
    ensures
        keep_last(keep_last(s, max).push(x), max) == keep_last(s.push(x), max),
{
    assert(keep_last(keep_last(s, max).push(x), max) =~= keep_last(s.push(x), max));
}

/// Folds (input, output) pairs into requests: a pair whose input is the
/// output so far continues the current request; any other pair starts a new one.
/// Returns the finished requests and the one in progress.
pub open spec fn group_state(s: Seq<(Seq<char>, Seq<char>)>) -> (Seq<(Seq<char>, Seq<char>)>, Option<(Seq<char>, Seq<char>)>)
    decreases s.len(),
{
    if s.len() == 0 {
        (Seq::empty(), None)
    } else {
        let (reqs, cur) = group_state(s.drop_last());
        let (i, o) = s.last();
        match cur {
            Some(c) => if c.1 == i {
                (reqs, Some((c.0, o)))
            } else {
                (reqs.push(c), Some((i, o)))
            },
            None => (reqs, Some((i, o))),
        }
    }
}

/// The requests that a run of log entries came from, each as its first input
/// and last output, in order.
pub open spec fn grouped(s: Seq<(Seq<char>, Seq<char>)>) -> Seq<(Seq<char>, Seq<char>)> {
    let (reqs, cur) = group_state(s);
    match cur {
        Some(c) => reqs.push(c),
        None => reqs,
    }
}

/// Pairs of strings as plain values.
pub open spec fn pairs_view(v: Seq<(String, String)>) -> Seq<(Seq<char>, Seq<char>)> {
    v.map_values(|p: (String, String)| (p.0@, p.1@))
}

/// Groups consecutive log entries, given as (input, output), into requests:
/// entries that each start from the previous entry's output belong to one
/// request, shown as its first input and last output.
pub fn group_logs(entries: &Vec<(String, String)>) -> (r: Vec<(String, String)>)
    ensures
        pairs_view(r@) == grouped(pairs_view(entries@)),
{
    let ghost all = pairs_view(entries@);
    let mut reqs: Vec<(String, String)> = Vec::new();
    let mut cur: Option<(String, String)> = None;
    let mut k: usize = 0;
    while k < entries.len()
        invariant
            k <= entries.len(),
            all == pairs_view(entries@),
            pairs_view(reqs@) == group_state(all.subrange(0, k as int)).0,
            match cur {
                Some(c) => group_state(all.subrange(0, k as int)).1 == Some((c.0@, c.1@)),
                None => group_state(all.subrange(0, k as int)).1 is None,
            },
        decreases entries.len() - k,
    {
        assert(all.subrange(0, k + 1).drop_last() =~= all.subrange(0, k as int));
        assert(all.subrange(0, k + 1).last() == (entries@[k as int].0@, entries@[k as int].1@));
        let input = copy_string(&entries[k].0);
        let output = copy_string(&entries[k].1);
        let ghost rv = pairs_view(reqs@);
        match cur {
            Some(c) => {
                if text_eq(c.1.as_str(), input.as_str()) {
                    cur = Some((c.0, output));
                } else {
                    let ghost cv = (c.0@, c.1@);
                    reqs.push(c);
                    assert(pairs_view(reqs@) =~= rv.push(cv));
                    cur = Some((input, output));
                }
            },
            None => {
                cur = Some((input, output));
            },
        }
        k = k + 1;
    }
    assert(all.subrange(0, entries.len() as int) =~= all);
    match cur {
        Some(c) => {
            let ghost rv = pairs_view(reqs@);
            let ghost cv = (c.0@, c.1@);
            reqs.push(c);
            assert(pairs_view(reqs@) =~= rv.push(cv));
        },
        None => {},
    }
    reqs
}

/// A copy of the entries of a log.
pub fn copy_log(v: &Vec<TransformationLog>) -> (r: Vec<TransformationLog>)
    ensures
        records(r@) == records(v@),
{
    let mut out: Vec<TransformationLog> = Vec::new();
    let mut i: usize = 0;
    while i < v.len()
        invariant
            i <= v.len(),
            out.len() == i,
            records(out@) == records(v@).subrange(0, i as int),
        decreases v.len() - i,
    {
        let e = v[i].duplicate();
        out.push(e);
        assert(records(out@) =~= records(v@).subrange(0, i + 1));
        i = i + 1;
    }
    assert(records(v@).subrange(0, v.len() as int) =~= records(v@));
    out
}

} // verus!
