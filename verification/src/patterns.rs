//! The catalogue of optimisation patterns that `accel patterns` lists.

use vstd::prelude::*;
use crate::plugins::node_pattern::pattern_table;

verus! {

/// The Python patterns the AST analyser recognises, as listed.
pub open spec fn python_listing() -> Seq<Seq<char>> {
    seq![
        "sum_of_squares_loop"@,
        "range_sum_loop"@,
        "nested_loop_matrix"@,
        "string_concat_loop"@,
        "list_append_loop"@,
        "dict_counting_loop"@,
    ]
}

/// The Node.js patterns, as listed.
pub open spec fn node_listing() -> Seq<Seq<char>> {
    seq![
        "sum_of_squares_loop"@,
        "range_sum_loop"@,
        "nested_loop_matrix"@,
        "string_concat_loop"@,
        "array_push_loop"@,
        "object_counting_loop"@,
    ]
}

/// The views of a list of names.
pub open spec fn name_views(v: Seq<&'static str>) -> Seq<Seq<char>> {
    v.map_values(|s: &'static str| s@)
}

/// The names of the Python patterns, in listing order.
pub fn python_pattern_names() -> (v: Vec<&'static str>)
    ensures
        name_views(v@) == python_listing(),
{
    let mut v: Vec<&'static str> = Vec::new();
    v.push("sum_of_squares_loop");
    v.push("range_sum_loop");
    v.push("nested_loop_matrix");
    v.push("string_concat_loop");
    v.push("list_append_loop");
    v.push("dict_counting_loop");
    assert(name_views(v@) =~= python_listing());
    v
}

/// The names of the Node.js patterns, in listing order.
pub fn node_pattern_names() -> (v: Vec<&'static str>)
    ensures
        name_views(v@) == node_listing(),
{
    let mut v: Vec<&'static str> = Vec::new();
    v.push("sum_of_squares_loop");
    v.push("range_sum_loop");
    v.push("nested_loop_matrix");
    v.push("string_concat_loop");
    v.push("array_push_loop");
    v.push("object_counting_loop");
    assert(name_views(v@) =~= node_listing());
    v
}

/// The Node.js listing names exactly the patterns the detector tries, in
/// the detector's order.
pub proof fn lemma_node_listing_is_detector_table()
    ensures
        node_listing() == pattern_table().map_values(
            |p: crate::plugins::node_pattern::NodePatternView| p.name,
        ),
{
    assert(node_listing() =~= pattern_table().map_values(
        |p: crate::plugins::node_pattern::NodePatternView| p.name,
    ));
}

} // verus!
