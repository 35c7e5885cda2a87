//! The Python AST analyser's findings and how it is invoked.

use vstd::prelude::*;
use crate::script_output::decimal;
use crate::script_output::push_decimal;
use crate::text::string_views;

verus! {

/// A pattern the AST analyser found in a hot function.
pub struct PatternMatch {
    pub name: String,
    pub description: String,
    pub rust_fn: String,
    pub category: String,
    pub line: u64,
}

/// The arguments the analyser script is run with: its own path, the
/// source file, and the hot line in decimal.
pub fn analyzer_arguments(script_path: &str, filename: &str, line: u64) -> (v: Vec<String>)
    ensures
        string_views(v@) == seq![script_path@, filename@, decimal(line as nat)],
{
    let mut v: Vec<String> = Vec::new();
    v.push(String::from_str(script_path));
    v.push(String::from_str(filename));
    let mut l = String::new();
    push_decimal(&mut l, line);
    v.push(l);
    assert(string_views(v@) =~= seq![script_path@, filename@, decimal(line as nat)]);
    v
}

} // verus!
