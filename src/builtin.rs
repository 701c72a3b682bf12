//! The built-in functions that `Function` rules name.

use vstd::prelude::*;
use crate::text::{chars_of, string_of, text_eq};

verus! {

/// What `str::to_uppercase` makes of a string.
pub uninterp spec fn upper_of(s: Seq<char>) -> Seq<char>;

/// What `str::to_lowercase` makes of a string.
pub uninterp spec fn lower_of(s: Seq<char>) -> Seq<char>;

/// What `char::to_uppercase` makes of a character (one or more characters).
pub uninterp spec fn char_upper_of(c: char) -> Seq<char>;

/// Whether a character has the Unicode `White_Space` property, as
/// `char::is_whitespace` tests it.
pub open spec fn is_white_space(c: char) -> bool {
    let u = c as u32;
    (0x9 <= u <= 0xd) || u == 0x20 || u == 0x85 || u == 0xa0 || u == 0x1680 || (0x2000 <= u <= 0x200a)
        || u == 0x2028 || u == 0x2029 || u == 0x202f || u == 0x205f || u == 0x3000
}

/// Relies on `str::to_uppercase`: the result depends on the characters alone.
#[verifier::external_body]
fn uppercase(s: &str) -> (r: String)
    ensures
        r@ == upper_of(s@),
{
    s.to_uppercase()
}

/// Relies on `str::to_lowercase`: the result depends on the characters alone.
#[verifier::external_body]
fn lowercase(s: &str) -> (r: String)
    ensures
        r@ == lower_of(s@),
{
    s.to_lowercase()
}

/// Relies on `char::to_uppercase`, collected: the result depends on the character alone.
#[verifier::external_body]
fn uppercase_char(c: char) -> (r: Vec<char>)
    ensures
        r@ == char_upper_of(c),
{
    c.to_uppercase().collect()
}

/// Whether `c` is white space.
pub fn white_space(c: char) -> (r: bool)
    ensures
        r == is_white_space(c),
{
    let u = c as u32;
    (0x9 <= u && u <= 0xd) || u == 0x20 || u == 0x85 || u == 0xa0 || u == 0x1680 || (0x2000 <= u && u <= 0x200a)
        || u == 0x2028 || u == 0x2029 || u == 0x202f || u == 0x205f || u == 0x3000
}

/// `s` without its leading white space.
pub open spec fn trim_start_spec(s: Seq<char>) -> Seq<char>
    decreases s.len(),
{
    if s.len() > 0 && is_white_space(s[0]) {
        trim_start_spec(s.drop_first())
    } else {
        s
    }
}

/// `s` without its trailing white space.
pub open spec fn trim_end_spec(s: Seq<char>) -> Seq<char>
    decreases s.len(),
{
    if s.len() > 0 && is_white_space(s.last()) {
        trim_end_spec(s.drop_last())
    } else {
        s
    }
}

/// `s` without its leading and trailing white space.
pub open spec fn trim_spec(s: Seq<char>) -> Seq<char> {
    trim_end_spec(trim_start_spec(s))
}

/// `s` with its first character in upper case.
pub open spec fn capitalize_spec(s: Seq<char>) -> Seq<char> {
    if s.len() == 0 {
        s
    } else {
        char_upper_of(s[0]) + s.drop_first()
    }
}

/// The words of `s` (runs of characters that are not white space), joined
/// by single spaces; the flag says whether white space follows the last word.
pub open spec fn collapse_ws(s: Seq<char>) -> (Seq<char>, bool)
    decreases s.len(),
{
    if s.len() == 0 {
        (s, false)
    } else {
        let (out, gap) = collapse_ws(s.drop_last());
        let c = s.last();
        if is_white_space(c) {
            (out, out.len() > 0)
        } else if gap {
            (out.push(' ').push(c), false)
        } else {
            (out.push(c), false)
        }
    }
}

/// The words of `s` joined by single spaces.
pub open spec fn normalize_ws_spec(s: Seq<char>) -> Seq<char> {
    collapse_ws(s).0
}

/// The built-in transformation functions.
#[derive(Debug, Clone, Copy, PartialEq, Eq, Structural)]
pub enum BuiltinFunction {
    /// Convert to upper case.
    Uppercase,
    /// Convert to lower case.
    Lowercase,
    /// Remove leading and trailing white space.
    Trim,
    /// Remove leading white space.
    TrimStart,
    /// Remove trailing white space.
    TrimEnd,
    /// Put the first character in upper case.
    Capitalize,
    /// Reverse the characters.
    Reverse,
    /// Collapse runs of white space to one space and trim the ends.
    NormalizeWhitespace,
}

/// The function that a lower-case name (or one of its aliases) stands for.
pub open spec fn builtin_named(n: Seq<char>) -> Option<BuiltinFunction> {
    if n == "uppercase"@ || n == "upper"@ {
        Some(BuiltinFunction::Uppercase)
    } else if n == "lowercase"@ || n == "lower"@ {
        Some(BuiltinFunction::Lowercase)
    } else if n == "trim"@ {
        Some(BuiltinFunction::Trim)
    } else if n == "trim_start"@ || n == "trimstart"@ || n == "ltrim"@ {
        Some(BuiltinFunction::TrimStart)
    } else if n == "trim_end"@ || n == "trimend"@ || n == "rtrim"@ {
        Some(BuiltinFunction::TrimEnd)
    } else if n == "capitalize"@ || n == "cap"@ {
        Some(BuiltinFunction::Capitalize)
    } else if n == "reverse"@ {
        Some(BuiltinFunction::Reverse)
    } else if n == "normalize_whitespace"@ || n == "normalize"@ {
        Some(BuiltinFunction::NormalizeWhitespace)
    } else {
        None
    }
}

/// The function that a name stands for, ignoring case.
pub open spec fn builtin_from_name(name: Seq<char>) -> Option<BuiltinFunction> {
    builtin_named(lower_of(name))
}

impl BuiltinFunction {
    /// What the function makes of `s`.
    pub open spec fn apply_spec(self, s: Seq<char>) -> Seq<char> {
        match self {
            BuiltinFunction::Uppercase => upper_of(s),
            BuiltinFunction::Lowercase => lower_of(s),
            BuiltinFunction::Trim => trim_spec(s),
            BuiltinFunction::TrimStart => trim_start_spec(s),
            BuiltinFunction::TrimEnd => trim_end_spec(s),
            BuiltinFunction::Capitalize => capitalize_spec(s),
            BuiltinFunction::Reverse => s.reverse(),
            BuiltinFunction::NormalizeWhitespace => normalize_ws_spec(s),
        }
    }

    /// The function that `name` stands for, in any case; `None` for an unknown name.
    pub fn from_name(name: &str) -> (r: Option<BuiltinFunction>)
        ensures
            r == builtin_from_name(name@),
    {
        let lower = lowercase(name);
        BuiltinFunction::from_lower_name(lower.as_str())
    }

    /// The function that a lower-case name (or alias) stands for; `None` for an unknown name.
    pub fn from_lower_name(n: &str) -> (r: Option<BuiltinFunction>)
        ensures
            r == builtin_named(n@),
    {
        if text_eq(n, "uppercase") || text_eq(n, "upper") {
            Some(BuiltinFunction::Uppercase)
        } else if text_eq(n, "lowercase") || text_eq(n, "lower") {
            Some(BuiltinFunction::Lowercase)
        } else if text_eq(n, "trim") {
            Some(BuiltinFunction::Trim)
        } else if text_eq(n, "trim_start") || text_eq(n, "trimstart") || text_eq(n, "ltrim") {
            Some(BuiltinFunction::TrimStart)
        } else if text_eq(n, "trim_end") || text_eq(n, "trimend") || text_eq(n, "rtrim") {
            Some(BuiltinFunction::TrimEnd)
        } else if text_eq(n, "capitalize") || text_eq(n, "cap") {
            Some(BuiltinFunction::Capitalize)
        } else if text_eq(n, "reverse") {
            Some(BuiltinFunction::Reverse)
        } else if text_eq(n, "normalize_whitespace") || text_eq(n, "normalize") {
            Some(BuiltinFunction::NormalizeWhitespace)
        } else {
            None
        }
    }

    /// Applies the function to `input`.
    pub fn apply(&self, input: &str) -> (r: String)
        ensures
            r@ == self.apply_spec(input@),
    {
        match self {
            BuiltinFunction::Uppercase => uppercase(input),
            BuiltinFunction::Lowercase => lowercase(input),
            BuiltinFunction::Trim => {
                let cs = chars_of(input);
                let a = skip_leading_ws(&cs);
                let b = drop_trailing_ws(&a);
                string_of(&b)
            },
            BuiltinFunction::TrimStart => {
                let cs = chars_of(input);
                string_of(&skip_leading_ws(&cs))
            },
            BuiltinFunction::TrimEnd => {
                let cs = chars_of(input);
                string_of(&drop_trailing_ws(&cs))
            },
            BuiltinFunction::Capitalize => {
                let cs = chars_of(input);
                string_of(&capitalize_chars(&cs))
            },
            BuiltinFunction::Reverse => {
                let cs = chars_of(input);
                string_of(&reverse_chars(&cs))
            },
            BuiltinFunction::NormalizeWhitespace => {
                let cs = chars_of(input);
                string_of(&normalize_chars(&cs))
            },
        }
    }
}

/// The characters of `cs` from `from` up to `to`.
fn chars_between(cs: &Vec<char>, from: usize, to: usize) -> (r: Vec<char>)
    requires
        from <= to <= cs.len(),
    ensures
        r@ == cs@.subrange(from as int, to as int),
{
    let mut out: Vec<char> = Vec::new();
    let mut i = from;
    while i < to
        invariant
            from <= i <= to <= cs.len(),
            out@ == cs@.subrange(from as int, i as int),
        decreases to - i,
    {
        out.push(cs[i]);
        assert(out@ =~= cs@.subrange(from as int, i + 1));
        i = i + 1;
    }
    out
}

fn skip_leading_ws(cs: &Vec<char>) -> (r: Vec<char>)
    ensures
        r@ == trim_start_spec(cs@),
{
    let mut i: usize = 0;
    assert(cs@.subrange(0, cs.len() as int) =~= cs@);
    while i < cs.len() && white_space(cs[i])
        invariant
            i <= cs.len(),
            trim_start_spec(cs@) == trim_start_spec(cs@.subrange(i as int, cs.len() as int)),
        decreases cs.len() - i,
    {
        let ghost rest = cs@.subrange(i as int, cs.len() as int);
        assert(rest.drop_first() =~= cs@.subrange(i + 1, cs.len() as int));
        i = i + 1;
    }
    assert(cs@.subrange(0, cs.len() as int) =~= cs@);
    chars_between(cs, i, cs.len())
}

fn drop_trailing_ws(cs: &Vec<char>) -> (r: Vec<char>)
    ensures
        r@ == trim_end_spec(cs@),
{
    let mut j: usize = cs.len();
    assert(cs@.subrange(0, cs.len() as int) =~= cs@);
    while j > 0 && white_space(cs[j - 1])
        invariant
            j <= cs.len(),
            trim_end_spec(cs@) == trim_end_spec(cs@.subrange(0, j as int)),
        decreases j,
    {
        let ghost rest = cs@.subrange(0, j as int);
        assert(rest.drop_last() =~= cs@.subrange(0, j - 1));
        j = j - 1;
    }
    assert(cs@.subrange(0, cs.len() as int) =~= cs@);
    chars_between(cs, 0, j)
}

fn capitalize_chars(cs: &Vec<char>) -> (r: Vec<char>)
    ensures
        r@ == capitalize_spec(cs@),
{
    if cs.len() == 0 {
        return Vec::new();
    }
    let mut out = uppercase_char(cs[0]);
    let ghost head = out@;
    let mut i: usize = 1;
    while i < cs.len()
        invariant
            1 <= i <= cs.len(),
            out@ == head + cs@.subrange(1, i as int),
        decreases cs.len() - i,
    {
        out.push(cs[i]);
        assert(out@ =~= head + cs@.subrange(1, i + 1));
        i = i + 1;
    }
    assert(cs@.drop_first() =~= cs@.subrange(1, cs.len() as int));
    out
}

fn reverse_chars(cs: &Vec<char>) -> (r: Vec<char>)
    ensures
        r@ == cs@.reverse(),
{
    let mut out: Vec<char> = Vec::new();
    let mut i: usize = cs.len();
    while i > 0
        invariant
            i <= cs.len(),
            out.len() == cs.len() - i,
            forall|k: int| 0 <= k < out.len() ==> out@[k] == cs@[cs.len() - 1 - k],
        decreases i,
    {
        i = i - 1;
        out.push(cs[i]);
    }
    assert(out@ =~= cs@.reverse());
    out
}

fn normalize_chars(cs: &Vec<char>) -> (r: Vec<char>)
    ensures
        r@ == normalize_ws_spec(cs@),
{
    let mut out: Vec<char> = Vec::new();
    let mut gap = false;
    let mut i: usize = 0;
    while i < cs.len()
        invariant
            i <= cs.len(),
            (out@, gap) == collapse_ws(cs@.subrange(0, i as int)),
        decreases cs.len() - i,
    {
        let c = cs[i];
        assert(cs@.subrange(0, i + 1).drop_last() =~= cs@.subrange(0, i as int));
        if white_space(c) {
            gap = out.len() > 0;
        } else {
            if gap {
                out.push(' ');
            }
            out.push(c);
            gap = false;
        }
        i = i + 1;
    }
    assert(cs@.subrange(0, cs.len() as int) =~= cs@);
    out
}

} // verus!
