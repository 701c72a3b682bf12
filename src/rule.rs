//! The shape of a rule.

use vstd::prelude::*;
use crate::text::{copy_opt_string, copy_string, has_prefix, opt_view, starts_with, to_owned_string};

verus! {

/// How a rule transforms text.
#[derive(Debug, Clone, Copy, PartialEq, Eq, Structural)]
pub enum RuleType {
    /// Regex replacement of every match.
    Regex,
    /// An external command fed the text on its standard input.
    Shell,
    /// One of the built-in functions, named by the pattern.
    Function,
}

impl Default for RuleType {
    fn default() -> (r: RuleType)
        ensures
            r == RuleType::Regex,
    {
        RuleType::Regex
    }
}

impl RuleType {
    /// The variant's name as it appears in transformation log entries.
    pub open spec fn name_spec(self) -> Seq<char> {
        match self {
            RuleType::Regex => seq!['R', 'e', 'g', 'e', 'x'],
            RuleType::Shell => seq!['S', 'h', 'e', 'l', 'l'],
            RuleType::Function => seq!['F', 'u', 'n', 'c', 't', 'i', 'o', 'n'],
        }
    }

    /// The variant's name: `Regex`, `Shell` or `Function`.
    pub fn name(&self) -> (r: String)
        ensures
            r@ == self.name_spec(),
    {
        match self {
            RuleType::Regex => {
                let r = to_owned_string("Regex");
                proof {
                    reveal_strlit("Regex");
                }
                r
            },
            RuleType::Shell => {
                let r = to_owned_string("Shell");
                proof {
                    reveal_strlit("Shell");
                }
                r
            },
            RuleType::Function => {
                let r = to_owned_string("Function");
                proof {
                    reveal_strlit("Function");
                }
                r
            },
        }
    }
}

/// A single transformation rule.
#[derive(Debug, Clone)]
pub struct Rule {
    /// Identifier of the rule; toggling finds a rule by it.
    pub id: String,
    /// Human-readable description.
    pub description: Option<String>,
    /// How the rule transforms text.
    pub rule_type: RuleType,
    /// Regex pattern, shell command line or built-in function name.
    pub pattern: String,
    /// Regex replacement template (`$1`, `${name}`); unused by other kinds.
    pub replacement: String,
    /// Higher priorities run first.
    pub priority: i32,
    /// Disabled rules are skipped.
    pub enabled: bool,
    /// Regex rules only: match without regard to case.
    pub ignore_case: bool,
    /// Shell rules only: how long the command may run, in milliseconds.
    pub timeout_ms: u64,
    /// Once this rule changes the text, no later rule runs in that pass.
    pub stop_on_match: bool,
    /// The file the rule was loaded from, if any.
    pub source_file: Option<String>,
}

/// Default of `enabled` for a rule read from a file.
pub fn default_enabled() -> (r: bool)
    ensures
        r,
{
    true
}

/// Default of `timeout_ms` for a rule read from a file.
pub fn default_timeout() -> (r: u64)
    ensures
        r == 5000,
{
    5000
}

/// The inline flag that makes a regex case-insensitive.
pub open spec fn case_flag() -> Seq<char> {
    seq!['(', '?', 'i', ')']
}

/// The pattern that is compiled for a regex rule: the case flag is put in
/// front when `ignore_case` is set and the pattern does not already begin with it.
pub open spec fn effective_pattern_of(ignore_case: bool, pattern: Seq<char>) -> Seq<char> {
    if ignore_case && !has_prefix(pattern, case_flag()) {
        case_flag() + pattern
    } else {
        pattern
    }
}

impl Rule {
    /// The pattern that is compiled for this rule.
    pub open spec fn effective_pattern_spec(&self) -> Seq<char> {
        effective_pattern_of(self.ignore_case, self.pattern@)
    }

    /// Two rules that hold the same values.
    pub open spec fn same_as(&self, other: &Rule) -> bool {
        &&& self.id@ == other.id@
        &&& opt_view(self.description) == opt_view(other.description)
        &&& self.rule_type == other.rule_type
        &&& self.pattern@ == other.pattern@
        &&& self.replacement@ == other.replacement@
        &&& self.priority == other.priority
        &&& self.enabled == other.enabled
        &&& self.ignore_case == other.ignore_case
        &&& self.timeout_ms == other.timeout_ms
        &&& self.stop_on_match == other.stop_on_match
        &&& opt_view(self.source_file) == opt_view(other.source_file)
    }

    /// The pattern to compile, with `(?i)` in front when `ignore_case` asks for it.
    pub fn effective_pattern(&self) -> (r: String)
        ensures
            r@ == self.effective_pattern_spec(),
    {
        let flag = "(?i)";
        proof {
            reveal_strlit("(?i)");
            assert(flag@ =~= case_flag());
        }
        if self.ignore_case && !starts_with(self.pattern.as_str(), flag) {
            let mut r = to_owned_string(flag);
            r.append(self.pattern.as_str());
            r
        } else {
            copy_string(&self.pattern)
        }
    }

    /// A copy of this rule.
    pub fn duplicate(&self) -> (r: Rule)
        ensures
            r.same_as(self),
    {
        Rule {
            id: copy_string(&self.id),
            description: copy_opt_string(&self.description),
            rule_type: self.rule_type,
            pattern: copy_string(&self.pattern),
            replacement: copy_string(&self.replacement),
            priority: self.priority,
            enabled: self.enabled,
            ignore_case: self.ignore_case,
            timeout_ms: self.timeout_ms,
            stop_on_match: self.stop_on_match,
            source_file: copy_opt_string(&self.source_file),
        }
    }
}

} // verus!
