//! The calls this library makes into `regex`, `num` and the standard
//! library where vstd has no specification. Each item here is trusted:
//! its contract is believed, not proved.
use vstd::prelude::*;
use crate::text::char_seqs;
use num::Integer;

verus! {

/// `regex::Regex`, carried opaquely.
#[verifier::external_type_specification]
#[verifier::external_body]
pub struct ExRegex(regex::Regex);

/// `regex::Error`, the error `regex::Regex::new` reports.
#[verifier::external_type_specification]
#[verifier::external_body]
pub struct ExRegexError(regex::Error);

/// Whether `regex::Regex::new` accepts `pattern` (with the crate's default
/// limits, which depend on the pattern alone).
pub uninterp spec fn regex_compiles(pattern: Seq<char>) -> bool;

/// The texts of the successive non-overlapping leftmost-first matches of
/// `pattern` in `haystack`, as `regex::Regex::find_iter` reports them.
pub uninterp spec fn regex_matches(pattern: Seq<char>, haystack: Seq<char>) -> Seq<Seq<char>>;

/// The pieces of `haystack` around the first `limit - 1` matches of
/// `pattern`, as `regex::Regex::splitn` yields them.
pub uninterp spec fn regex_splitn(pattern: Seq<char>, haystack: Seq<char>, limit: usize) -> Seq<
    Seq<char>,
>;

/// A compiled regular expression together with the pattern it was
/// compiled from.
pub struct CompiledRegex {
    re: regex::Regex,
    source: Ghost<Seq<char>>,
}

impl CompiledRegex {
    /// The pattern this expression was compiled from.
    pub closed spec fn source(&self) -> Seq<char> {
        self.source@
    }
}

/// Calls `regex::Regex::new(pattern)`. Trusted: that it succeeds exactly
/// when `regex_compiles(pattern)` holds, and that the compiled expression
/// remembers `pattern`.
#[verifier::external_body]
pub fn compile_regex(pattern: &str) -> (r: Result<CompiledRegex, regex::Error>)
    ensures
        r is Ok <==> regex_compiles(pattern@),
        r matches Ok(c) ==> c.source() == pattern@,
{
    match regex::Regex::new(pattern) {
        Ok(re) => Ok(CompiledRegex { re, source: Ghost(pattern@) }),
        Err(e) => Err(e),
    }
}

/// Calls `regex::Regex::find_iter` on the characters of `haystack` and
/// collects the text of each match. Trusted: the result is
/// `regex_matches` of the expression's pattern and `haystack`.
#[verifier::external_body]
pub fn regex_find_all(re: &CompiledRegex, haystack: &Vec<char>) -> (r: Vec<Vec<char>>)
    ensures
        char_seqs(r@) == regex_matches(re.source(), haystack@),
{
    let text: String = haystack.iter().collect();
    re.re.find_iter(&text).map(|m| m.as_str().chars().collect()).collect()
}

/// Calls `regex::Regex::splitn` on the characters of `haystack` and
/// collects the pieces. Trusted: the result is `regex_splitn` of the
/// expression's pattern, `haystack` and `limit`.
#[verifier::external_body]
pub fn regex_split_limited(re: &CompiledRegex, haystack: &Vec<char>, limit: usize) -> (r: Vec<
    Vec<char>,
>)
    ensures
        char_seqs(r@) == regex_splitn(re.source(), haystack@, limit),
{
    let text: String = haystack.iter().collect();
    re.re.splitn(&text, limit).map(|p| p.chars().collect()).collect()
}

/// Calls `num::Integer::is_even` on `x`. Trusted: the result is whether
/// `x` is divisible by 2 (the crate computes `x % 2 == 0`).
#[verifier::external_body]
pub fn usize_is_even(x: usize) -> (r: bool)
    ensures
        r == (x % 2 == 0),
{
    x.is_even()
}

/// Collects characters into a `String` (`FromIterator<char>`). Trusted:
/// the string holds exactly the given characters, in order.
#[verifier::external_body]
pub fn string_of(chars: &Vec<char>) -> (s: String)
    ensures
        s@ == chars@,
{
    chars.iter().collect()
}

} // verus!
