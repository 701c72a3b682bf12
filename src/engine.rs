//! The rule engine: an ordered rule table, its compiled matchers and the
//! bounded transformation log.

use vstd::prelude::*;
use crate::builtin::{builtin_from_name, trim_end_spec, BuiltinFunction};
use crate::error::AppError;
use crate::loader::{lemma_sorted_is_ordered, priority_ordered, sort_by_priority, sorted_by_priority};
use crate::log::{copy_log, keep_last, lemma_keep_last_push, records, LogRecord, TransformationLog};
use crate::matcher::{all_compile, regex_replace_all, MatcherCache};
use crate::rule::{Rule, RuleType};
use crate::text::{copy_opt_string, copy_string, copy_strings, opt_view, strings_view, text_eq};

verus! {

/// Number of log entries an engine keeps unless told otherwise.
pub const MAX_LOG_ENTRIES: usize = 1000;

/// What a regex or function rule makes of `text`; a shell rule whose
/// command did not run leaves it as it is.
pub open spec fn rule_output(r: Rule, text: Seq<char>) -> Seq<char> {
    match r.rule_type {
        RuleType::Regex => regex_replace_all(r.effective_pattern_spec(), text, r.replacement@),
        RuleType::Function => match builtin_from_name(r.pattern@) {
            Some(f) => f.apply_spec(text),
            None => text,
        },
        RuleType::Shell => text,
    }
}

/// The log entry for rule `r` turning `input` into `output`.
pub open spec fn record_of(r: Rule, input: Seq<char>, output: Seq<char>) -> LogRecord {
    LogRecord {
        rule_id: r.id@,
        rule_type: r.rule_type.name_spec(),
        input,
        output,
        matched: input != output,
    }
}

/// Whether evaluation ends after rule `r` turned `input` into `output`.
pub open spec fn stops_after(r: Rule, input: Seq<char>, output: Seq<char>) -> bool {
    input != output && r.stop_on_match
}

/// One pass over the rules from position `i` on, starting from `text`, in
/// which no shell command runs: the final text, the log entries in order,
/// and the position after the last rule evaluated.
pub open spec fn pass(rules: Seq<Rule>, i: int, text: Seq<char>) -> (Seq<char>, Seq<LogRecord>, int)
    decreases rules.len() - i,
{
    if i < 0 || i >= rules.len() {
        (text, Seq::empty(), i)
    } else if !rules[i].enabled {
        pass(rules, i + 1, text)
    } else {
        let out = rule_output(rules[i], text);
        let rec = record_of(rules[i], text, out);
        if stops_after(rules[i], text, out) {
            (out, seq![rec], i + 1)
        } else {
            let rest = pass(rules, i + 1, out);
            (rest.0, seq![rec] + rest.1, rest.2)
        }
    }
}

/// Number of enabled rules in `s`.
pub open spec fn enabled_count(s: Seq<Rule>) -> nat
    decreases s.len(),
{
    if s.len() == 0 {
        0
    } else {
        (if s[0].enabled { 1nat } else { 0nat }) + enabled_count(s.drop_first())
    }
}

/// The ids of the enabled rules in `s`, in order.
pub open spec fn enabled_ids(s: Seq<Rule>) -> Seq<Seq<char>>
    decreases s.len(),
{
    if s.len() == 0 {
        Seq::empty()
    } else {
        (if s[0].enabled { seq![s[0].id@] } else { Seq::empty() }) + enabled_ids(s.drop_first())
    }
}

/// The rule ids of a sequence of log entries.
pub open spec fn entry_ids(recs: Seq<LogRecord>) -> Seq<Seq<char>> {
    recs.map_values(|r: LogRecord| r.rule_id)
}

/// When no enabled rule changes `text`, a pass returns it unchanged and
/// every log entry is marked unmatched.
pub proof fn lemma_no_match_unchanged(rules: Seq<Rule>, i: int, text: Seq<char>)
    requires
        forall|k: int| 0 <= k < rules.len() && rules[k].enabled ==> rule_output(#[trigger] rules[k], text) == text,
    ensures
        pass(rules, i, text).0 == text,
        forall|k: int| 0 <= k < pass(rules, i, text).1.len() ==> !(#[trigger] pass(rules, i, text).1[k]).matched,
    decreases rules.len() - i,
{
    if 0 <= i < rules.len() {
        lemma_no_match_unchanged(rules, i + 1, text);
        if rules[i].enabled {
            let rec = record_of(rules[i], text, text);
            let rest = pass(rules, i + 1, text);
            assert forall|k: int| 0 <= k < pass(rules, i, text).1.len() implies !(#[trigger] pass(rules, i, text).1[k]).matched by {
                if k > 0 {
                    assert(pass(rules, i, text).1[k] == rest.1[k - 1]);
                }
            }
        }
    }
}

/// A pass logs one entry for each enabled rule from `i` up to the position
/// where it ended, in table order and carrying the rule's id, and no other. When it ended before the last rule, the last
/// rule it evaluated changed the text and has `stop_on_match` set.
pub proof fn lemma_pass_log(rules: Seq<Rule>, i: int, text: Seq<char>)
    requires
        0 <= i <= rules.len(),
    ensures
        ({
            let (t, recs, end) = pass(rules, i, text);
            &&& i <= end <= rules.len()
            &&& recs.len() == enabled_count(rules.subrange(i, end))
            &&& entry_ids(recs) == enabled_ids(rules.subrange(i, end))
            &&& end < rules.len() ==> {
                &&& i < end
                &&& rules[end - 1].enabled
                &&& rules[end - 1].stop_on_match
                &&& recs.len() > 0
                &&& recs.last().matched
                &&& recs.last().rule_id == rules[end - 1].id@
            }
        }),
    decreases rules.len() - i,
{
    if i < rules.len() {
        let out = rule_output(rules[i], text);
        if !rules[i].enabled {
            lemma_pass_log(rules, i + 1, text);
            let end = pass(rules, i + 1, text).2;
            assert(rules.subrange(i, end).drop_first() =~= rules.subrange(i + 1, end));
            assert(rules.subrange(i, end)[0] == rules[i]);
            assert(enabled_ids(rules.subrange(i, end)) =~= enabled_ids(rules.subrange(i + 1, end)));
        } else if stops_after(rules[i], text, out) {
            assert(rules.subrange(i, i + 1).drop_first() =~= Seq::<Rule>::empty());
            assert(enabled_count(Seq::<Rule>::empty()) == 0);
            assert(enabled_count(rules.subrange(i, i + 1)) == 1);
            assert(enabled_ids(Seq::<Rule>::empty()) == Seq::<Seq<char>>::empty());
            assert(enabled_ids(rules.subrange(i, i + 1)) =~= seq![rules[i].id@]);
            assert(entry_ids(seq![record_of(rules[i], text, out)]) =~= seq![rules[i].id@]);
        } else {
            lemma_pass_log(rules, i + 1, out);
            let end = pass(rules, i + 1, out).2;
            assert(rules.subrange(i, end).drop_first() =~= rules.subrange(i + 1, end));
            let rest = pass(rules, i + 1, out);
            assert(rules.subrange(i, end)[0] == rules[i]);
            assert(entry_ids(seq![record_of(rules[i], text, out)] + rest.1)
                =~= seq![rules[i].id@] + entry_ids(rest.1));
            assert(enabled_ids(rules.subrange(i, end)) =~= seq![rules[i].id@] + enabled_ids(rules.subrange(i + 1, end)));
            if end < rules.len() {
                assert((seq![record_of(rules[i], text, out)] + rest.1).last() == rest.1.last());
            }
        }
    } else {
        assert(rules.subrange(i, i) =~= Seq::<Rule>::empty());
        assert(entry_ids(Seq::<LogRecord>::empty()) =~= Seq::<Seq<char>>::empty());
    }
}

proof fn lemma_shell_name(t: RuleType)
    ensures
        t.name_spec() == RuleType::Shell.name_spec() ==> t == RuleType::Shell,
{
    match t {
        RuleType::Regex => {
            assert(t.name_spec()[0] != RuleType::Shell.name_spec()[0]);
        },
        RuleType::Function => {
            assert(t.name_spec().len() != RuleType::Shell.name_spec().len());
        },
        RuleType::Shell => {},
    }
}

/// Shell rules whose command did not run (shell rules disabled, or a pass
/// that runs no commands) are still logged: each such entry is unmatched and
/// its output is its input.
pub proof fn lemma_shell_entries_unmatched(rules: Seq<Rule>, i: int, text: Seq<char>)
    ensures
        forall|k: int|
            0 <= k < pass(rules, i, text).1.len() && (#[trigger] pass(rules, i, text).1[k]).rule_type
                == RuleType::Shell.name_spec() ==> {
                &&& !pass(rules, i, text).1[k].matched
                &&& pass(rules, i, text).1[k].input == pass(rules, i, text).1[k].output
            },
    decreases rules.len() - i,
{
    if 0 <= i < rules.len() {
        let out = rule_output(rules[i], text);
        if !rules[i].enabled {
            lemma_shell_entries_unmatched(rules, i + 1, text);
            assert(pass(rules, i, text) == pass(rules, i + 1, text));
        } else {
            let rec = record_of(rules[i], text, out);
            lemma_shell_name(rules[i].rule_type);
            assert(rec.rule_type == RuleType::Shell.name_spec() ==> !rec.matched && rec.input == rec.output);
            if stops_after(rules[i], text, out) {
                assert(pass(rules, i, text).1 == seq![rec]);
            } else {
                lemma_shell_entries_unmatched(rules, i + 1, out);
                let rest = pass(rules, i + 1, out);
                assert forall|k: int|
                    0 <= k < pass(rules, i, text).1.len() && (#[trigger] pass(rules, i, text).1[k]).rule_type
                        == RuleType::Shell.name_spec() implies {
                        &&& !pass(rules, i, text).1[k].matched
                        &&& pass(rules, i, text).1[k].input == pass(rules, i, text).1[k].output
                    } by {
                    if k > 0 {
                        assert(pass(rules, i, text).1[k] == rest.1[k - 1]);
                    } else {
                        assert(pass(rules, i, text).1[k] == rec);
                    }
                }
            }
        }
    }
}

/// Where a pass from `i` gets to before position `j`: the text that reaches
/// rule `j` and the entries logged on the way, or `None` when a rule before
/// `j` stopped the pass.
pub open spec fn reach(rules: Seq<Rule>, i: int, text: Seq<char>, j: int) -> Option<(Seq<char>, Seq<LogRecord>)>
    decreases j - i,
{
    if i >= j {
        Some((text, Seq::empty()))
    } else if !rules[i].enabled {
        reach(rules, i + 1, text, j)
    } else {
        let out = rule_output(rules[i], text);
        if stops_after(rules[i], text, out) {
            None
        } else {
            match reach(rules, i + 1, out, j) {
                Some(p) => Some((p.0, seq![record_of(rules[i], text, out)] + p.1)),
                None => None,
            }
        }
    }
}

/// A pass that gets to rule `j` goes on from there as a pass started at `j`.
pub proof fn lemma_pass_split(rules: Seq<Rule>, i: int, text: Seq<char>, j: int)
    requires
        0 <= i <= j <= rules.len(),
        reach(rules, i, text, j) is Some,
    ensures
        ({
            let (t, before) = reach(rules, i, text, j)->0;
            let rest = pass(rules, j, t);
            pass(rules, i, text) == (rest.0, before + rest.1, rest.2)
        }),
    decreases j - i,
{
    if i == j {
        let rest = pass(rules, j, text);
        assert(Seq::<LogRecord>::empty() + rest.1 =~= rest.1);
    } else if !rules[i].enabled {
        lemma_pass_split(rules, i + 1, text, j);
    } else {
        let out = rule_output(rules[i], text);
        lemma_pass_split(rules, i + 1, out, j);
        let (t, before) = reach(rules, i + 1, out, j)->0;
        let rest = pass(rules, j, t);
        assert(seq![record_of(rules[i], text, out)] + (before + rest.1)
            =~= (seq![record_of(rules[i], text, out)] + before) + rest.1);
    }
}

/// The entries logged before getting to rule `j` are those of the enabled
/// rules before `j`, in order.
pub proof fn lemma_reach_ids(rules: Seq<Rule>, i: int, text: Seq<char>, j: int)
    requires
        0 <= i <= j <= rules.len(),
        reach(rules, i, text, j) is Some,
    ensures
        entry_ids((reach(rules, i, text, j)->0).1) == enabled_ids(rules.subrange(i, j)),
    decreases j - i,
{
    if i == j {
        assert(rules.subrange(i, j) =~= Seq::<Rule>::empty());
        assert(entry_ids(Seq::<LogRecord>::empty()) =~= Seq::<Seq<char>>::empty());
    } else {
        assert(rules.subrange(i, j).drop_first() =~= rules.subrange(i + 1, j));
        assert(rules.subrange(i, j)[0] == rules[i]);
        if !rules[i].enabled {
            lemma_reach_ids(rules, i + 1, text, j);
            assert(enabled_ids(rules.subrange(i, j)) =~= enabled_ids(rules.subrange(i + 1, j)));
        } else {
            let out = rule_output(rules[i], text);
            lemma_reach_ids(rules, i + 1, out, j);
            let before = (reach(rules, i + 1, out, j)->0).1;
            assert(entry_ids(seq![record_of(rules[i], text, out)] + before) =~= seq![rules[i].id@] + entry_ids(before));
            assert(enabled_ids(rules.subrange(i, j)) =~= seq![rules[i].id@] + enabled_ids(rules.subrange(i + 1, j)));
        }
    }
}

/// Stop on match: when the pass gets to an enabled rule `j` with
/// `stop_on_match` and that rule changes the text reaching it, the pass
/// returns that rule's output, its entry is the last one, and no rule after
/// `j` runs or logs; the entries before it are those of the enabled rules
/// before `j`.
pub proof fn lemma_stop_on_match(rules: Seq<Rule>, text: Seq<char>, j: int)
    requires
        0 <= j < rules.len(),
        reach(rules, 0, text, j) is Some,
        rules[j].enabled,
        rules[j].stop_on_match,
        rule_output(rules[j], (reach(rules, 0, text, j)->0).0) != (reach(rules, 0, text, j)->0).0,
    ensures
        ({
            let (t, before) = reach(rules, 0, text, j)->0;
            let out = rule_output(rules[j], t);
            &&& pass(rules, 0, text) == (out, before.push(record_of(rules[j], t, out)), j + 1)
            &&& entry_ids(before) == enabled_ids(rules.subrange(0, j))
        }),
{
    lemma_pass_split(rules, 0, text, j);
    lemma_reach_ids(rules, 0, text, j);
    let (t, before) = reach(rules, 0, text, j)->0;
    let out = rule_output(rules[j], t);
    assert(before + seq![record_of(rules[j], t, out)] =~= before.push(record_of(rules[j], t, out)));
}

/// Each rule a pass evaluates sees the text the rule before it produced:
/// the first entry starts from the input, each entry's output is the next
/// one's input, and the last output is the result.
pub proof fn lemma_pass_chain(rules: Seq<Rule>, i: int, text: Seq<char>)
    ensures
        ({
            let (t, recs, end) = pass(rules, i, text);
            &&& recs.len() == 0 ==> t == text
            &&& recs.len() > 0 ==> recs[0].input == text && recs.last().output == t
            &&& forall|k: int| 0 <= k < recs.len() - 1 ==> (#[trigger] recs[k]).output == recs[k + 1].input
        }),
    decreases rules.len() - i,
{
    if 0 <= i < rules.len() {
        let out = rule_output(rules[i], text);
        if !rules[i].enabled {
            lemma_pass_chain(rules, i + 1, text);
        } else if !stops_after(rules[i], text, out) {
            lemma_pass_chain(rules, i + 1, out);
            let rest = pass(rules, i + 1, out);
            let recs = pass(rules, i, text).1;
            assert(recs == seq![record_of(rules[i], text, out)] + rest.1);
            assert forall|k: int| 0 <= k < recs.len() - 1 implies (#[trigger] recs[k]).output == recs[k + 1].input by {
                if k > 0 {
                    assert(recs[k] == rest.1[k - 1]);
                    assert(recs[k + 1] == rest.1[k]);
                }
            }
        }
    }
}

/// The first rule with this id.
pub open spec fn first_with_id(rules: Seq<Rule>, id: Seq<char>, i: int) -> bool {
    &&& 0 <= i < rules.len()
    &&& rules[i].id@ == id
    &&& forall|k: int| 0 <= k < i ==> rules[k].id@ != id
}

/// Whether some rule has this id.
pub open spec fn has_id(rules: Seq<Rule>, id: Seq<char>) -> bool {
    exists|i: int| 0 <= i < rules.len() && rules[i].id@ == id
}

/// Toggling the same rule twice gives back the table it started from: the
/// first rule with the id stays the first, and its state flips back.
pub proof fn lemma_toggle_twice(rules: Seq<Rule>, id: Seq<char>, i: int)
    requires
        first_with_id(rules, id, i),
    ensures
        ({
            let once = rules.update(i, (Rule { enabled: !rules[i].enabled, ..rules[i] }));
            &&& first_with_id(once, id, i)
            &&& once.update(i, (Rule { enabled: !once[i].enabled, ..once[i] })) == rules
        }),
{
    let once = rules.update(i, (Rule { enabled: !rules[i].enabled, ..rules[i] }));
    assert(once.update(i, (Rule { enabled: !once[i].enabled, ..once[i] })) =~= rules);
}

/// A shell command that a pass needs run before it can go on.
#[derive(Debug)]
pub struct ShellRequest {
    /// Command line for `sh -c`.
    pub command: String,
    /// Text to write to the command's standard input.
    pub input: String,
    /// How long the command may run, in milliseconds.
    pub timeout_ms: u64,
}

/// An `apply` pass in progress, with the log entries it has made so far.
pub struct ApplyRun {
    text: String,
    next: usize,
    stopped: bool,
    awaiting_shell: bool,
    generation: u64,
    entries: Vec<TransformationLog>,
}

impl ApplyRun {
    /// The text so far.
    pub closed spec fn text_spec(&self) -> Seq<char> {
        self.text@
    }

    /// Position of the next rule to evaluate.
    pub closed spec fn next_spec(&self) -> int {
        self.next as int
    }

    /// Whether a rule stopped the pass.
    pub closed spec fn stopped_spec(&self) -> bool {
        self.stopped
    }

    /// Whether the pass waits for the outcome of a shell command.
    pub closed spec fn awaiting_spec(&self) -> bool {
        self.awaiting_shell
    }

    /// The generation of the rule table the pass started on.
    pub closed spec fn generation_spec(&self) -> u64 {
        self.generation
    }

    /// The log entries of the pass so far, in order.
    pub closed spec fn entries_spec(&self) -> Seq<LogRecord> {
        records(self.entries@)
    }

    /// The text so far.
    pub fn text(&self) -> (r: &String)
        ensures
            r@ == self.text_spec(),
    {
        &self.text
    }

    /// The log entries of the pass so far.
    pub fn entries(&self) -> (r: Vec<TransformationLog>)
        ensures
            records(r@) == self.entries_spec(),
    {
        copy_log(&self.entries)
    }
}

/// Applies transformation rules to text.
pub struct RuleEngine {
    rules_paths: Vec<String>,
    rules: Vec<Rule>,
    cache: MatcherCache,
    transformation_log: Vec<TransformationLog>,
    max_log_entries: usize,
    enable_shell_rules: bool,
    generation: u64,
}

impl RuleEngine {
    /// The rule table, in evaluation order.
    pub closed spec fn rules_spec(&self) -> Seq<Rule> {
        self.rules@
    }

    /// The log entries, oldest first.
    pub closed spec fn log_spec(&self) -> Seq<LogRecord> {
        records(self.transformation_log@)
    }

    /// How many log entries are kept.
    pub closed spec fn max_log_spec(&self) -> nat {
        self.max_log_entries as nat
    }

    /// Whether shell rules run their commands.
    pub closed spec fn shell_enabled_spec(&self) -> bool {
        self.enable_shell_rules
    }

    /// The path specs the rules are loaded from.
    pub closed spec fn paths_spec(&self) -> Seq<Seq<char>> {
        strings_view(self.rules_paths@)
    }

    /// Changes whenever the rule table changes (toggle, set, reload).
    pub closed spec fn generation_spec(&self) -> u64 {
        self.generation
    }

    /// The matchers fit the rule table, the rules are ordered by priority and
    /// the log is within its cap.
    pub closed spec fn wf(&self) -> bool {
        &&& self.cache.fits(self.rules@)
        &&& priority_ordered(self.rules@)
        &&& self.transformation_log@.len() <= self.max_log_entries
    }

    /// Whether the run is over: a rule stopped it or no rule is left.
    pub open spec fn run_done(&self, run: &ApplyRun) -> bool {
        run.stopped_spec() || run.next_spec() >= self.rules_spec().len()
    }

    /// An engine over `rules`, ordered by priority (highest first, ties in the
    /// given order), with every regex compiled; fails if a pattern does not compile.
    pub fn from_rules(paths: Vec<String>, rules: Vec<Rule>, enable_shell_rules: bool) -> (r: Result<RuleEngine, AppError>)
        ensures
            r is Ok <==> all_compile(sorted_by_priority(rules@)),
            r matches Ok(e) ==> {
                &&& e.wf()
                &&& e.rules_spec() == sorted_by_priority(rules@)
                &&& e.log_spec() == Seq::<LogRecord>::empty()
                &&& e.max_log_spec() == MAX_LOG_ENTRIES
                &&& e.shell_enabled_spec() == enable_shell_rules
                &&& e.paths_spec() == strings_view(paths@)
            },
            r matches Err(e) ==> e is InvalidRegex,
    {
        let sorted = sort_by_priority(rules);
        proof {
            lemma_sorted_is_ordered(rules@);
        }
        match MatcherCache::compile_regexes(&sorted) {
            Ok(cache) => {
                let e = RuleEngine {
                    rules_paths: paths,
                    rules: sorted,
                    cache,
                    transformation_log: Vec::new(),
                    max_log_entries: MAX_LOG_ENTRIES,
                    enable_shell_rules,
                    generation: 0,
                };
                assert(e.log_spec() =~= Seq::<LogRecord>::empty());
                Ok(e)
            },
            Err(err) => Err(AppError::InvalidRegex(err)),
        }
    }

    /// Number of rules.
    pub fn rules_count(&self) -> (r: usize)
        ensures
            r == self.rules_spec().len(),
    {
        self.rules.len()
    }

    /// Copies of the rules, in evaluation order.
    pub fn get_rules(&self) -> (r: Vec<Rule>)
        ensures
            r@.len() == self.rules_spec().len(),
            forall|i: int| 0 <= i < r@.len() ==> (#[trigger] r@[i]).same_as(&self.rules_spec()[i]),
    {
        let mut out: Vec<Rule> = Vec::new();
        let mut i: usize = 0;
        while i < self.rules.len()
            invariant
                i <= self.rules@.len(),
                out@.len() == i,
                forall|k: int| 0 <= k < i ==> (#[trigger] out@[k]).same_as(&self.rules@[k]),
            decreases self.rules.len() - i,
        {
            out.push(self.rules[i].duplicate());
            i = i + 1;
        }
        out
    }

    /// The path specs the rules are loaded from.
    pub fn rules_paths(&self) -> (r: Vec<String>)
        ensures
            strings_view(r@) == self.paths_spec(),
    {
        copy_strings(&self.rules_paths)
    }

    /// Whether shell rules run their commands.
    pub fn shell_rules_enabled(&self) -> (r: bool)
        ensures
            r == self.shell_enabled_spec(),
    {
        self.enable_shell_rules
    }

    fn find_rule(&self, rule_id: &str) -> (r: Option<usize>)
        ensures
            r is None <==> !has_id(self.rules_spec(), rule_id@),
            r matches Some(i) ==> first_with_id(self.rules_spec(), rule_id@, i as int),
    {
        let mut i: usize = 0;
        while i < self.rules.len()
            invariant
                i <= self.rules@.len(),
                forall|k: int| 0 <= k < i ==> self.rules@[k].id@ != rule_id@,
            decreases self.rules.len() - i,
        {
            if text_eq(self.rules[i].id.as_str(), rule_id) {
                return Some(i);
            }
            i = i + 1;
        }
        None
    }

    /// The file the first rule with this id was loaded from; `None` when no
    /// rule has the id or that rule has no file.
    pub fn source_file_of(&self, rule_id: &str) -> (r: Option<String>)
        ensures
            !has_id(self.rules_spec(), rule_id@) ==> r is None,
            forall|i: int| #[trigger] first_with_id(self.rules_spec(), rule_id@, i)
                ==> opt_view(r) == opt_view(self.rules_spec()[i].source_file),
    {
        match self.find_rule(rule_id) {
            Some(i) => copy_opt_string(&self.rules[i].source_file),
            None => None,
        }
    }

    /// Flips `enabled` of the first rule with this id and returns its new
    /// state; `None` when no rule has the id.
    pub fn toggle_rule(&mut self, rule_id: &str) -> (r: Option<bool>)
        requires
            old(self).wf(),
        ensures
            final(self).wf(),
            r is None <==> !has_id(old(self).rules_spec(), rule_id@),
            r is None ==> final(self).rules_spec() == old(self).rules_spec()
                && final(self).generation_spec() == old(self).generation_spec(),
            r is Some ==> final(self).generation_spec() != old(self).generation_spec(),
            forall|i: int| #[trigger] first_with_id(old(self).rules_spec(), rule_id@, i) ==> {
                let old_rule = old(self).rules_spec()[i];
                &&& r == Some(!old_rule.enabled)
                &&& final(self).rules_spec() == old(self).rules_spec().update(i, (Rule { enabled: !old_rule.enabled, ..old_rule }))
            },
            final(self).log_spec() == old(self).log_spec(),
            final(self).max_log_spec() == old(self).max_log_spec(),
            final(self).shell_enabled_spec() == old(self).shell_enabled_spec(),
            final(self).paths_spec() == old(self).paths_spec(),
    {
        match self.find_rule(rule_id) {
            Some(i) => {
                let now = !self.rules[i].enabled;
                self.set_enabled_at(i, now);
                Some(now)
            },
            None => None,
        }
    }

    /// Sets `enabled` of the first rule with this id and returns it; `None`
    /// when no rule has the id.
    pub fn set_rule_enabled(&mut self, rule_id: &str, enabled: bool) -> (r: Option<bool>)
        requires
            old(self).wf(),
        ensures
            final(self).wf(),
            r is None <==> !has_id(old(self).rules_spec(), rule_id@),
            r is None ==> final(self).rules_spec() == old(self).rules_spec()
                && final(self).generation_spec() == old(self).generation_spec(),
            r is Some ==> final(self).generation_spec() != old(self).generation_spec(),
            forall|i: int| #[trigger] first_with_id(old(self).rules_spec(), rule_id@, i) ==> {
                let old_rule = old(self).rules_spec()[i];
                &&& r == Some(enabled)
                &&& final(self).rules_spec() == old(self).rules_spec().update(i, (Rule { enabled: enabled, ..old_rule }))
            },
            final(self).log_spec() == old(self).log_spec(),
            final(self).max_log_spec() == old(self).max_log_spec(),
            final(self).shell_enabled_spec() == old(self).shell_enabled_spec(),
            final(self).paths_spec() == old(self).paths_spec(),
    {
        match self.find_rule(rule_id) {
            Some(i) => {
                self.set_enabled_at(i, enabled);
                Some(enabled)
            },
            None => None,
        }
    }

    fn set_enabled_at(&mut self, i: usize, enabled: bool)
        requires
            old(self).wf(),
            i < old(self).rules_spec().len(),
        ensures
            final(self).wf(),
            final(self).rules_spec() == old(self).rules_spec().update(i as int, (Rule { enabled: enabled, ..old(self).rules_spec()[i as int] })),
            final(self).generation_spec() != old(self).generation_spec(),
            final(self).log_spec() == old(self).log_spec(),
            final(self).max_log_spec() == old(self).max_log_spec(),
            final(self).shell_enabled_spec() == old(self).shell_enabled_spec(),
            final(self).paths_spec() == old(self).paths_spec(),
    {
        self.rules[i].enabled = enabled;
        self.generation = self.generation.wrapping_add(1);
        assert(self.rules@ =~= old(self).rules@.update(i as int, (Rule { enabled: enabled, ..old(self).rules@[i as int] })));
        assert forall|k: int| 0 <= k < self.rules@.len() implies
            #[trigger] self.rules@[k].effective_pattern_spec() == old(self).rules@[k].effective_pattern_spec()
            && self.rules@[k].rule_type == old(self).rules@[k].rule_type by {}
    }

    /// Copies of the log entries, oldest first.
    pub fn get_transformation_log(&self) -> (r: Vec<TransformationLog>)
        ensures
            records(r@) == self.log_spec(),
    {
        copy_log(&self.transformation_log)
    }

    /// Empties the log.
    pub fn clear_transformation_log(&mut self)
        requires
            old(self).wf(),
        ensures
            final(self).wf(),
            final(self).log_spec() == Seq::<LogRecord>::empty(),
            final(self).rules_spec() == old(self).rules_spec(),
            final(self).generation_spec() == old(self).generation_spec(),
            final(self).max_log_spec() == old(self).max_log_spec(),
            final(self).shell_enabled_spec() == old(self).shell_enabled_spec(),
            final(self).paths_spec() == old(self).paths_spec(),
    {
        self.transformation_log = Vec::new();
        assert(records(self.transformation_log@) =~= Seq::<LogRecord>::empty());
    }

    /// Sets how many log entries are kept, dropping the oldest beyond it.
    pub fn set_max_log_entries(&mut self, max: usize)
        requires
            old(self).wf(),
        ensures
            final(self).wf(),
            final(self).max_log_spec() == max,
            final(self).log_spec() == keep_last(old(self).log_spec(), max as nat),
            final(self).rules_spec() == old(self).rules_spec(),
            final(self).generation_spec() == old(self).generation_spec(),
            final(self).shell_enabled_spec() == old(self).shell_enabled_spec(),
            final(self).paths_spec() == old(self).paths_spec(),
    {
        let ghost log0 = self.log_spec();
        let n = self.transformation_log.len();
        let drop = if n > max { n - max } else { 0 };
        let mut kept: Vec<TransformationLog> = Vec::new();
        let mut k: usize = drop;
        while k < n
            invariant
                drop <= k <= n,
                n == self.transformation_log@.len(),
                records(kept@) == records(self.transformation_log@).subrange(drop as int, k as int),
            decreases n - k,
        {
            let e = self.transformation_log[k].duplicate();
            let ghost before = kept@;
            kept.push(e);
            assert(records(kept@) =~= records(before).push(e@));
            assert(records(kept@) =~= records(self.transformation_log@).subrange(drop as int, k + 1));
            k = k + 1;
        }
        self.transformation_log = kept;
        self.max_log_entries = max;
        assert(records(self.transformation_log@) =~= keep_last(log0, max as nat));
    }

    /// Appends an entry, dropping the oldest beyond the cap.
    fn log_transformation(&mut self, entry: TransformationLog)
        requires
            old(self).wf(),
        ensures
            final(self).wf(),
            final(self).log_spec() == keep_last(old(self).log_spec().push(entry@), old(self).max_log_spec()),
            final(self).rules_spec() == old(self).rules_spec(),
            final(self).generation_spec() == old(self).generation_spec(),
            final(self).max_log_spec() == old(self).max_log_spec(),
            final(self).shell_enabled_spec() == old(self).shell_enabled_spec(),
            final(self).paths_spec() == old(self).paths_spec(),
    {
        let ghost before = self.transformation_log@;
        self.transformation_log.push(entry);
        assert(records(self.transformation_log@) =~= records(before).push(entry@));
        if self.transformation_log.len() > self.max_log_entries {
            let ghost pushed = self.transformation_log@;
            self.transformation_log.remove(0);
            assert(records(self.transformation_log@) =~= keep_last(records(pushed), self.max_log_entries as nat));
        }
    }

    /// Ends a pass: appends its log entries to the log, oldest dropped beyond
    /// the cap, and returns its text.
    pub fn finish_apply(&mut self, run: ApplyRun) -> (r: String)
        requires
            old(self).wf(),
        ensures
            final(self).wf(),
            r@ == run.text_spec(),
            final(self).log_spec() == keep_last(old(self).log_spec() + run.entries_spec(), old(self).max_log_spec()),
            final(self).rules_spec() == old(self).rules_spec(),
            final(self).generation_spec() == old(self).generation_spec(),
            final(self).max_log_spec() == old(self).max_log_spec(),
            final(self).shell_enabled_spec() == old(self).shell_enabled_spec(),
            final(self).paths_spec() == old(self).paths_spec(),
    {
        let ghost log0 = self.log_spec();
        let ghost max = self.max_log_spec();
        let ghost all = run.entries_spec();
        assert(log0 + all.subrange(0, 0) =~= log0);
        let mut k: usize = 0;
        while k < run.entries.len()
            invariant
                self.wf(),
                k <= run.entries@.len(),
                all == records(run.entries@),
                self.max_log_spec() == max,
                self.rules_spec() == old(self).rules_spec(),
                self.generation_spec() == old(self).generation_spec(),
                self.shell_enabled_spec() == old(self).shell_enabled_spec(),
                self.paths_spec() == old(self).paths_spec(),
                self.log_spec() == keep_last(log0 + all.subrange(0, k as int), max),
            decreases run.entries@.len() - k,
        {
            let e = run.entries[k].duplicate();
            proof {
                lemma_keep_last_push(log0 + all.subrange(0, k as int), e@, max);
                assert((log0 + all.subrange(0, k as int)).push(e@) =~= log0 + all.subrange(0, k + 1));
            }
            self.log_transformation(e);
            k = k + 1;
        }
        assert(all.subrange(0, run.entries@.len() as int) =~= all);
        run.text
    }

    /// Starts a pass over the rules with `text`.
    pub fn begin_apply(&self, text: &str) -> (run: ApplyRun)
        ensures
            run.text_spec() == text@,
            run.next_spec() == 0,
            !run.stopped_spec(),
            !run.awaiting_spec(),
            run.generation_spec() == self.generation_spec(),
            run.entries_spec() == Seq::<LogRecord>::empty(),
    {
        let run = ApplyRun {
            text: String::from_str(text),
            next: 0,
            stopped: false,
            awaiting_shell: false,
            generation: self.generation,
            entries: Vec::new(),
        };
        assert(run.entries_spec() =~= Seq::<LogRecord>::empty());
        run
    }

    /// Whether the pass started on the rule table as it is now.
    pub fn is_current(&self, run: &ApplyRun) -> (r: bool)
        ensures
            r == (run.generation_spec() == self.generation_spec()),
    {
        run.generation == self.generation
    }

    /// Whether the run is over.
    pub fn is_done(&self, run: &ApplyRun) -> (r: bool)
        ensures
            r == self.run_done(run),
    {
        run.stopped || run.next >= self.rules.len()
    }

    /// Finishes the rule at the run's position with `output`: records it,
    /// moves on, and stops the run if the rule asks for it.
    fn finish_rule(&self, run: &mut ApplyRun, output: String)
        requires
            old(run).next_spec() < self.rules_spec().len(),
        ensures
            ({
                let r = self.rules_spec()[old(run).next_spec()];
                &&& final(run).entries_spec() == old(run).entries_spec().push(record_of(r, old(run).text_spec(), output@))
                &&& final(run).text_spec() == output@
                &&& final(run).next_spec() == old(run).next_spec() + 1
                &&& final(run).stopped_spec() == stops_after(r, old(run).text_spec(), output@)
                &&& !final(run).awaiting_spec()
                &&& final(run).generation_spec() == old(run).generation_spec()
            }),
    {
        let i = run.next;
        let table_len = self.rules.len();
        assert(i < table_len);
        let changed = !text_eq(run.text.as_str(), output.as_str());
        let stop = changed && self.rules[i].stop_on_match;
        let entry = TransformationLog {
            rule_id: copy_string(&self.rules[i].id),
            rule_type: self.rules[i].rule_type.name(),
            input: copy_string(&run.text),
            output: copy_string(&output),
            matched: changed,
        };
        let ghost before = run.entries@;
        run.entries.push(entry);
        assert(records(run.entries@) =~= records(before).push(entry@));
        run.text = output;
        run.next = i + 1;
        run.stopped = stop;
        run.awaiting_shell = false;
    }

    /// Evaluates the rule at the run's position; the run must have started
    /// on the table as it is now. A disabled rule is passed
    /// over. For an enabled shell rule while shell rules are enabled, the
    /// command to run is returned and the run waits for `complete_shell`;
    /// while they are disabled, a shell rule leaves the text as it is and its
    /// entry is marked unmatched.
    pub fn step(&self, run: &mut ApplyRun) -> (req: Option<ShellRequest>)
        requires
            self.wf(),
            old(run).generation_spec() == self.generation_spec(),
            !self.run_done(old(run)),
            !old(run).awaiting_spec(),
        ensures
            final(run).generation_spec() == old(run).generation_spec(),
            ({
                let r = self.rules_spec()[old(run).next_spec()];
                let t = old(run).text_spec();
                if !r.enabled {
                    &&& req is None
                    &&& final(run).entries_spec() == old(run).entries_spec()
                    &&& final(run).text_spec() == t
                    &&& final(run).next_spec() == old(run).next_spec() + 1
                    &&& !final(run).stopped_spec()
                    &&& !final(run).awaiting_spec()
                } else if r.rule_type == RuleType::Shell && self.shell_enabled_spec() {
                    &&& req matches Some(q) && q.command@ == r.pattern@ && q.input@ == t && q.timeout_ms == r.timeout_ms
                    &&& final(run).entries_spec() == old(run).entries_spec()
                    &&& final(run).text_spec() == t
                    &&& final(run).next_spec() == old(run).next_spec()
                    &&& !final(run).stopped_spec()
                    &&& final(run).awaiting_spec()
                } else {
                    let out = rule_output(r, t);
                    &&& req is None
                    &&& final(run).entries_spec() == old(run).entries_spec().push(record_of(r, t, out))
                    &&& final(run).text_spec() == out
                    &&& final(run).next_spec() == old(run).next_spec() + 1
                    &&& final(run).stopped_spec() == stops_after(r, t, out)
                    &&& !final(run).awaiting_spec()
                }
            }),
    {
        let i = run.next;
        let table_len = self.rules.len();
        assert(i < table_len);
        if !self.rules[i].enabled {
            run.next = i + 1;
            return None;
        }
        let output = match self.rules[i].rule_type {
            RuleType::Shell => {
                if self.enable_shell_rules {
                    run.awaiting_shell = true;
                    return Some(
                        ShellRequest {
                            command: copy_string(&self.rules[i].pattern),
                            input: copy_string(&run.text),
                            timeout_ms: self.rules[i].timeout_ms,
                        },
                    );
                }
                copy_string(&run.text)
            },
            RuleType::Regex => {
                proof {
                    assert(self.cache.fits(self.rules@));
                    assert(self.cache.at(i as int) is Some);
                }
                match self.cache.get(i) {
                    Some(m) => m.replace_all(run.text.as_str(), self.rules[i].replacement.as_str()),
                    None => copy_string(&run.text),
                }
            },
            RuleType::Function => match BuiltinFunction::from_name(self.rules[i].pattern.as_str()) {
                Some(f) => f.apply(run.text.as_str()),
                None => copy_string(&run.text),
            },
        };
        self.finish_rule(run, output);
        None
    }

    /// Hands the run, started on the table as it is now, the outcome of the
    /// shell command it asked for: the
    /// command's standard output, which becomes the text without its trailing
    /// white space, or `None` when it failed (spawn error, non-zero exit,
    /// timeout), which leaves the text as it is.
    pub fn complete_shell(&self, run: &mut ApplyRun, output: Option<String>)
        requires
            old(run).generation_spec() == self.generation_spec(),
            old(run).awaiting_spec(),
            old(run).next_spec() < self.rules_spec().len(),
        ensures
            ({
                let r = self.rules_spec()[old(run).next_spec()];
                let t = old(run).text_spec();
                let out = match output {
                    Some(o) => trim_end_spec(o@),
                    None => t,
                };
                &&& final(run).entries_spec() == old(run).entries_spec().push(record_of(r, t, out))
                &&& final(run).text_spec() == out
                &&& final(run).next_spec() == old(run).next_spec() + 1
                &&& final(run).stopped_spec() == stops_after(r, t, out)
                &&& !final(run).awaiting_spec()
                &&& final(run).generation_spec() == old(run).generation_spec()
            }),
    {
        let out = match output {
            Some(o) => BuiltinFunction::TrimEnd.apply(o.as_str()),
            None => copy_string(&run.text),
        };
        self.finish_rule(run, out);
    }

    /// Applies every enabled rule in order to `text` and returns the result,
    /// appending one log entry per rule evaluated. No external command runs
    /// here: a shell rule leaves the text as a failed command would. To run
    /// shell commands, drive a pass with `begin_apply`, `step`,
    /// `complete_shell` and `finish_apply`.
    pub fn apply(&mut self, text: &str) -> (r: String)
        requires
            old(self).wf(),
        ensures
            final(self).wf(),
            r@ == pass(old(self).rules_spec(), 0, text@).0,
            final(self).log_spec() == keep_last(
                old(self).log_spec() + pass(old(self).rules_spec(), 0, text@).1,
                old(self).max_log_spec(),
            ),
            final(self).rules_spec() == old(self).rules_spec(),
            final(self).generation_spec() == old(self).generation_spec(),
            final(self).max_log_spec() == old(self).max_log_spec(),
            final(self).shell_enabled_spec() == old(self).shell_enabled_spec(),
            final(self).paths_spec() == old(self).paths_spec(),
    {
        let ghost rules = self.rules_spec();
        let ghost whole = pass(rules, 0, text@);
        let mut run = self.begin_apply(text);
        assert(Seq::<LogRecord>::empty() + whole.1 =~= whole.1);
        while !self.is_done(&run)
            invariant
                self.wf(),
                *self == *old(self),
                self.rules_spec() == rules,
                run.generation_spec() == self.generation_spec(),
                !run.awaiting_spec(),
                0 <= run.next_spec() <= rules.len(),
                run.stopped_spec() ==> whole == (run.text_spec(), run.entries_spec(), run.next_spec()),
                !run.stopped_spec() ==> {
                    let rest = pass(rules, run.next_spec(), run.text_spec());
                    whole == (rest.0, run.entries_spec() + rest.1, rest.2)
                },
            decreases rules.len() - run.next_spec(), if run.stopped_spec() { 0int } else { 1int },
        {
            let ghost i = run.next_spec();
            let ghost t = run.text_spec();
            let ghost logged = run.entries_spec();
            match self.step(&mut run) {
                Some(_command) => {
                    self.complete_shell(&mut run, None);
                },
                None => {},
            }
            proof {
                let r = rules[i];
                if r.enabled {
                    let out = rule_output(r, t);
                    let rec = record_of(r, t, out);
                    if !stops_after(r, t, out) {
                        let rest = pass(rules, i + 1, out);
                        assert(logged + (seq![rec] + rest.1) =~= logged.push(rec) + rest.1);
                    } else {
                        assert(logged + seq![rec] =~= logged.push(rec));
                    }
                }
            }
        }
        proof {
            if !run.stopped_spec() {
                assert(run.entries_spec() + Seq::<LogRecord>::empty() =~= run.entries_spec());
            }
        }
        self.finish_apply(run)
    }

    /// Replaces the rule table with freshly loaded `new_rules`, ordered by
    /// priority, and recompiles the matchers. Only when every pattern
    /// compiles are the rules and matchers swapped in, together; otherwise
    /// the engine is left exactly as it was.
    pub fn reload(&mut self, new_rules: Vec<Rule>) -> (r: Result<(), AppError>)
        requires
            old(self).wf(),
        ensures
            final(self).wf(),
            r is Ok <==> all_compile(sorted_by_priority(new_rules@)),
            r is Ok ==> final(self).rules_spec() == sorted_by_priority(new_rules@)
                && final(self).generation_spec() != old(self).generation_spec(),
            r is Err ==> *final(self) == *old(self),
            r matches Err(e) ==> e is InvalidRegex,
            final(self).log_spec() == old(self).log_spec(),
            final(self).max_log_spec() == old(self).max_log_spec(),
            final(self).shell_enabled_spec() == old(self).shell_enabled_spec(),
            final(self).paths_spec() == old(self).paths_spec(),
    {
        let sorted = sort_by_priority(new_rules);
        proof {
            lemma_sorted_is_ordered(new_rules@);
        }
        match MatcherCache::compile_regexes(&sorted) {
            Ok(cache) => {
                self.rules = sorted;
                self.cache = cache;
                self.generation = self.generation.wrapping_add(1);
                Ok(())
            },
            Err(err) => Err(AppError::InvalidRegex(err)),
        }
    }
}

} // verus!
