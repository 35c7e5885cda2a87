//! Language plugins: Python and Node.js profiling, pattern detection and
//! live benchmarks.

pub mod ast_matcher;
pub mod benchmark;
pub mod node;
pub mod node_benchmark;
pub mod node_pattern;
pub mod python;
