//! Detecting the language of a command line.

use vstd::prelude::*;
use crate::text::{chars_of, contains_chars, has_substring};

verus! {

/// The languages the profiler has dedicated support for.
#[derive(Debug, PartialEq, Eq, Structural, Clone, Copy)]
pub enum Language {
    Python,
    Node,
    Unknown,
}

/// Unicode lower-case mapping of a string, as `str::to_lowercase` computes it.
pub uninterp spec fn lowercase(s: Seq<char>) -> Seq<char>;

/// Calls `str::to_lowercase`. Claimed: the result is the Unicode lower-case
/// mapping of the argument, a function of the argument alone; what that
/// mapping is, character by character, is left unsaid.
#[verifier::external_body]
fn to_lowercase(s: &str) -> (r: String)
    ensures
        r@ == lowercase(s@),
{
    s.to_lowercase()
}

/// The language that a lower-cased program name stands for.
pub open spec fn language_of(lowered: Seq<char>) -> Language {
    if has_substring(lowered, seq!['p', 'y', 't', 'h', 'o', 'n']) {
        Language::Python
    } else if has_substring(lowered, seq!['n', 'o', 'd', 'e']) {
        Language::Node
    } else {
        Language::Unknown
    }
}

/// The language of a command line: that of its program, the first word.
pub open spec fn command_language(cmd: Seq<Seq<char>>) -> Language {
    if cmd.len() == 0 {
        Language::Unknown
    } else {
        language_of(lowercase(cmd[0]))
    }
}

/// Classifies an already lower-cased program name.
pub fn classify_program(lowered: &str) -> (l: Language)
    ensures
        l == language_of(lowered@),
{
    let hay = chars_of(lowered);
    let python = chars_of("python");
    proof { reveal_strlit("python"); }
    assert(python@ =~= seq!['p', 'y', 't', 'h', 'o', 'n']);
    if contains_chars(&hay, &python) {
        return Language::Python;
    }
    let node = chars_of("node");
    proof { reveal_strlit("node"); }
    assert(node@ =~= seq!['n', 'o', 'd', 'e']);
    if contains_chars(&hay, &node) {
        return Language::Node;
    }
    Language::Unknown
}

/// Detects the language of `cmd` from its program name, case-insensitively.
pub fn detect(cmd: &[String]) -> (l: Language)
    ensures
        l == command_language(cmd@.map_values(|s: String| s@)),
{
    if cmd.len() == 0 {
        return Language::Unknown;
    }
    let prog = to_lowercase(cmd[0].as_str());
    classify_program(prog.as_str())
}

} // verus!
