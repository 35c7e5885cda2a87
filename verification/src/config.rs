//! Settings of `accel.toml` that the profiler reads, with their defaults.

use vstd::prelude::*;

verus! {

/// The `[general]` table.
#[derive(Debug, Clone)]
pub struct GeneralConfig {
    /// `"auto"`, `"python"` or `"node"`.
    pub language: String,
    /// Run the live benchmark without `--accelerate`.
    pub auto_accelerate: bool,
}

/// The `[profiler]` table.
#[derive(Debug, Clone)]
pub struct ProfilerConfig {
    /// How often CPU and memory are sampled, in milliseconds.
    pub sample_interval_ms: u64,
    /// Where the JSON report is written.
    pub report_output: String,
}

/// The `[python]` and `[node]` tables.
#[derive(Debug, Clone)]
pub struct LangConfig {
    pub binary: String,
    pub fast_ops_path: String,
}

/// The default language setting: detect it from the command.
pub fn default_language() -> (s: String)
    ensures
        s@ == "auto"@,
{
    String::from_str("auto")
}

/// The default sampling interval, 100 ms.
pub fn default_interval() -> (ms: u64)
    ensures
        ms == 100,
{
    100
}

/// The default report file.
pub fn default_report_path() -> (s: String)
    ensures
        s@ == "accel_report.json"@,
{
    String::from_str("accel_report.json")
}

/// The default threshold for a slow execution, 5000 ms.
pub fn default_slow_ms() -> (ms: u128)
    ensures
        ms == 5000,
{
    5000
}

impl Default for GeneralConfig {
    fn default() -> (c: Self)
        ensures
            c.language@ == "auto"@,
            !c.auto_accelerate,
    {
        GeneralConfig { language: default_language(), auto_accelerate: false }
    }
}

impl Default for ProfilerConfig {
    fn default() -> (c: Self)
        ensures
            c.sample_interval_ms == 100,
            c.report_output@ == "accel_report.json"@,
    {
        ProfilerConfig { sample_interval_ms: default_interval(), report_output: default_report_path() }
    }
}

impl Default for LangConfig {
    fn default() -> (c: Self)
        ensures
            c.binary@ == Seq::<char>::empty(),
            c.fast_ops_path@ == Seq::<char>::empty(),
    {
        LangConfig { binary: String::new(), fast_ops_path: String::new() }
    }
}

/// The files a configuration is looked for in, in order of preference.
pub open spec fn config_candidates() -> Seq<Seq<char>> {
    seq!["accel.toml"@, ".accel.toml"@]
}

/// The files a configuration is looked for in, in order of preference; the
/// first one that exists and parses is used, else the defaults.
pub fn config_file_candidates() -> (v: Vec<&'static str>)
    ensures
        v@.map_values(|s: &'static str| s@) == config_candidates(),
{
    let mut v: Vec<&'static str> = Vec::new();
    v.push("accel.toml");
    v.push(".accel.toml");
    assert(v@.map_values(|s: &'static str| s@) =~= config_candidates());
    v
}

} // verus!
