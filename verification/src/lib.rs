//! Verified core of the Prime Code Accelerator: language detection, source
//! pattern matching, report rules, benchmark script generation and the
//! native fast operations.

pub mod config;
pub mod fast_ops;
pub mod fast_ops_node;
pub mod lang_detect;
pub mod parallel;
pub mod patterns;
pub mod plugins;
pub mod profiler;
pub mod regex_engine;
pub mod report;
pub mod script_output;
pub mod text;
