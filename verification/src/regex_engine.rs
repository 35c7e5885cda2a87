//! Regular-expression matching through the `regex` crate.

use vstd::prelude::*;
use regex::Regex;

verus! {

#[verifier::external_type_specification]
#[verifier::external_body]
pub struct ExRegex(Regex);

/// Whether `regex::Regex::new` accepts the pattern (it is valid and within
/// the crate's default size limit).
pub uninterp spec fn regex_compiles(pattern: Seq<char>) -> bool;

/// Whether the regular expression compiled from `pattern` matches somewhere
/// in `haystack`, as `regex::Regex::is_match` decides it.
pub uninterp spec fn regex_matches(pattern: Seq<char>, haystack: Seq<char>) -> bool;

/// A compiled regular expression together with the pattern it was compiled
/// from. Values are only made by `CompiledRegex::new`, so the two fields
/// always belong together.
pub struct CompiledRegex {
    pattern: String,
    re: Regex,
}

impl View for CompiledRegex {
    type V = Seq<char>;

    /// The pattern the expression was compiled from.
    closed spec fn view(&self) -> Seq<char> {
        self.pattern@
    }
}

/// Calls `regex::Regex::new`. Claimed: it succeeds exactly when
/// `regex_compiles` holds of the pattern, and the value returned keeps the
/// pattern it was compiled from.
#[verifier::external_body]
fn compile_regex(pattern: &str) -> (r: Option<CompiledRegex>)
    ensures
        r is Some <==> regex_compiles(pattern@),
        r matches Some(c) ==> c@ == pattern@,
{
    match Regex::new(pattern) {
        Ok(re) => Some(CompiledRegex { pattern: pattern.to_string(), re }),
        Err(_) => None,
    }
}

/// Calls `regex::Regex::is_match`. Claimed: the answer is `regex_matches`
/// of the pattern the expression was compiled from and the haystack.
#[verifier::external_body]
fn regex_is_match(c: &CompiledRegex, haystack: &str) -> (b: bool)
    ensures
        b == regex_matches(c@, haystack@),
{
    c.re.is_match(haystack)
}

impl CompiledRegex {
    /// Compiles `pattern`; `None` when the regex crate refuses it.
    pub fn new(pattern: &str) -> (r: Option<CompiledRegex>)
        ensures
            r is Some <==> regex_compiles(pattern@),
            r matches Some(c) ==> c@ == pattern@,
    {
        compile_regex(pattern)
    }

    /// Whether the expression matches anywhere in `haystack`.
    pub fn is_match(&self, haystack: &str) -> (b: bool)
        ensures
            b == regex_matches(self@, haystack@),
    {
        regex_is_match(self, haystack)
    }
}

} // verus!
