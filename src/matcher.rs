//! Compiled regex matchers, one for each regex rule of a rule list.

use vstd::prelude::*;
use crate::rule::{Rule, RuleType};

verus! {

#[verifier::external_type_specification]
#[verifier::external_body]
pub struct ExRegex(regex::Regex);

#[verifier::external_type_specification]
#[verifier::external_body]
pub struct ExRegexError(regex::Error);

/// Whether `regex::Regex::new` accepts a pattern.
pub uninterp spec fn regex_compiles(pattern: Seq<char>) -> bool;

/// What `regex::Regex::replace_all` makes of `text` for a regex compiled from
/// `pattern` and a replacement template.
pub uninterp spec fn regex_replace_all(
    pattern: Seq<char>,
    text: Seq<char>,
    replacement: Seq<char>,
) -> Seq<char>;

/// Relies on `regex::Regex::new`: it fails exactly on the patterns it does not accept.
#[verifier::external_body]
fn new_regex(pattern: &str) -> (r: Result<regex::Regex, regex::Error>)
    ensures
        r is Ok <==> regex_compiles(pattern@),
{
    regex::Regex::new(pattern)
}

/// A compiled regex together with the pattern it was compiled from.
pub struct Matcher {
    regex: regex::Regex,
    source: Ghost<Seq<char>>,
}

impl Matcher {
    /// The pattern this matcher was compiled from.
    pub closed spec fn source(&self) -> Seq<char> {
        self.source@
    }

    /// Compiles `pattern`.
    pub fn compile(pattern: &str) -> (r: Result<Matcher, regex::Error>)
        ensures
            r is Ok <==> regex_compiles(pattern@),
            r matches Ok(m) ==> m.source() == pattern@,
    {
        match new_regex(pattern) {
            Ok(regex) => Ok(Matcher { regex, source: Ghost(pattern@) }),
            Err(e) => Err(e),
        }
    }

    /// Relies on `regex::Regex::replace_all`: every match in `text` is replaced
    /// by the template; the regex was compiled from `self.source()`.
    #[verifier::external_body]
    pub(crate) fn replace_all(&self, text: &str, replacement: &str) -> (r: String)
        ensures
            r@ == regex_replace_all(self.source(), text@, replacement@),
    {
        self.regex.replace_all(text, replacement).into_owned()
    }
}

/// Whether the effective pattern of every regex rule compiles.
pub open spec fn all_compile(rules: Seq<Rule>) -> bool {
    forall|i: int|
        0 <= i < rules.len() && rules[i].rule_type == RuleType::Regex
            ==> regex_compiles(#[trigger] rules[i].effective_pattern_spec())
}

/// One compiled matcher for each regex rule of a rule list, at the rule's position.
pub struct MatcherCache {
    matchers: Vec<Option<Matcher>>,
}

impl MatcherCache {
    /// The matcher at position `i`, if any.
    pub closed spec fn at(&self, i: int) -> Option<Matcher> {
        self.matchers@[i]
    }

    /// Number of positions.
    pub closed spec fn len(&self) -> nat {
        self.matchers@.len()
    }

    /// The cache holds, for each regex rule and for no other, a matcher
    /// compiled from the rule's effective pattern.
    pub open spec fn fits(&self, rules: Seq<Rule>) -> bool {
        &&& self.len() == rules.len()
        &&& forall|i: int|
            0 <= i < rules.len() ==> {
                &&& (#[trigger] self.at(i) is Some) == (rules[i].rule_type == RuleType::Regex)
                &&& self.at(i) matches Some(m) ==> m.source() == rules[i].effective_pattern_spec()
            }
    }

    /// Compiles the effective pattern of every regex rule; fails on the first
    /// that does not compile.
    pub fn compile_regexes(rules: &Vec<Rule>) -> (r: Result<MatcherCache, regex::Error>)
        ensures
            r is Ok <==> all_compile(rules@),
            r matches Ok(c) ==> c.fits(rules@),
    {
        let mut matchers: Vec<Option<Matcher>> = Vec::new();
        let mut i: usize = 0;
        while i < rules.len()
            invariant
                i <= rules.len(),
                matchers.len() == i,
                all_compile(rules@.subrange(0, i as int)),
                forall|k: int|
                    0 <= k < i ==> {
                        &&& (#[trigger] matchers@[k] is Some) == (rules@[k].rule_type == RuleType::Regex)
                        &&& matchers@[k] matches Some(m) ==> m.source() == rules@[k].effective_pattern_spec()
                    },
            decreases rules.len() - i,
        {
            let rule = &rules[i];
            if rule.rule_type == RuleType::Regex {
                let pattern = rule.effective_pattern();
                match Matcher::compile(pattern.as_str()) {
                    Ok(m) => {
                        matchers.push(Some(m));
                    },
                    Err(e) => {
                        assert(!all_compile(rules@)) by {
                            assert(rules@[i as int].rule_type == RuleType::Regex);
                        }
                        return Err(e);
                    },
                }
            } else {
                matchers.push(None);
            }
            assert(all_compile(rules@.subrange(0, i + 1))) by {
                assert forall|k: int|
                    0 <= k < i + 1 && (#[trigger] rules@.subrange(0, i + 1)[k]).rule_type == RuleType::Regex
                    implies regex_compiles(rules@.subrange(0, i + 1)[k].effective_pattern_spec()) by {
                    if k < i {
                        assert(rules@.subrange(0, i + 1)[k] == rules@.subrange(0, i as int)[k]);
                    }
                }
            }
            i = i + 1;
        }
        assert(rules@.subrange(0, rules.len() as int) =~= rules@);
        Ok(MatcherCache { matchers })
    }

    /// The matcher for the rule at position `i`.
    pub fn get(&self, i: usize) -> (r: &Option<Matcher>)
        requires
            i < self.len(),
        ensures
            *r == self.at(i as int),
    {
        &self.matchers[i]
    }
}

} // verus!
