use prime_accelerator::config::{
    config_file_candidates, default_interval, default_language, default_report_path,
    default_slow_ms, GeneralConfig, LangConfig, ProfilerConfig,
};
use prime_accelerator::plugins::ast_matcher::analyzer_arguments;
use prime_accelerator::plugins::node::short_function_name as node_short_name;
use prime_accelerator::plugins::python::{
    hotspot_advice, short_function_name, target_script, user_code_hotspots, HotspotAdvice,
};
use prime_accelerator::profiler::{command_line, profiling_command};
use prime_accelerator::report::{peak_memory_bytes, suggestions, Suggestion};

fn strings(words: &[&str]) -> Vec<String> {
    words.iter().map(|w| w.to_string()).collect()
}

#[test]
fn config_defaults() {
    assert_eq!(default_language(), "auto");
    assert_eq!(default_interval(), 100);
    assert_eq!(default_report_path(), "accel_report.json");
    assert_eq!(default_slow_ms(), 5000);
    let g = GeneralConfig::default();
    assert_eq!(g.language, "auto");
    assert!(!g.auto_accelerate);
    let p = ProfilerConfig::default();
    assert_eq!(p.sample_interval_ms, 100);
    assert_eq!(p.report_output, "accel_report.json");
    let l = LangConfig::default();
    assert!(l.binary.is_empty() && l.fast_ops_path.is_empty());
    assert_eq!(config_file_candidates(), vec!["accel.toml", ".accel.toml"]);
}

#[test]
fn peak_memory() {
    assert_eq!(peak_memory_bytes(&[]), 0);
    assert_eq!(peak_memory_bytes(&[5, 900, 3]), 900);
    assert_eq!(peak_memory_bytes(&[7]), 7);
}

#[test]
fn report_suggestions() {
    assert_eq!(suggestions(true, false, 4521, false), vec![Suggestion::HighCpu]);
    assert_eq!(
        suggestions(false, true, 6000, true),
        vec![Suggestion::HighMemory, Suggestion::SlowExecution, Suggestion::IoBound]
    );
    assert_eq!(suggestions(false, false, 3000, true), vec![]);
    assert_eq!(suggestions(false, false, 3001, true), vec![Suggestion::IoBound]);
    assert_eq!(suggestions(false, false, 5001, false), vec![Suggestion::SlowExecution]);
    assert!(Suggestion::HighCpu.message().starts_with(" - High CPU usage detected."));
    assert!(Suggestion::IoBound.message().contains("I/O bound"));
}

#[test]
fn commands() {
    assert_eq!(command_line(&strings(&["python3", "test_slow.py"])), "python3 test_slow.py");
    assert_eq!(command_line(&[]), "");
    assert_eq!(
        profiling_command(&strings(&["python3", "app.py", "--x"]), "/tmp/w.py"),
        strings(&["python3", "/tmp/w.py", "app.py", "--x"])
    );
    assert_eq!(profiling_command(&strings(&["node"]), "/tmp/w.js"), strings(&["node", "/tmp/w.js"]));
    assert_eq!(target_script(&strings(&["python3", "s.py", "a"])), "s.py");
    assert_eq!(target_script(&strings(&["python3"])), "");
    assert_eq!(
        analyzer_arguments("/tmp/a.py", "src.py", 42),
        strings(&["/tmp/a.py", "src.py", "42"])
    );
}

#[test]
fn user_code_hotspot_selection() {
    let files = strings(&["script.py", "script.py", "helper.py", "script.py"]);
    let funcs = strings(&["<module>", "slow_function", "slow_function", "other"]);
    assert_eq!(user_code_hotspots("script.py", &files, &funcs), vec![1, 3]);
    assert_eq!(user_code_hotspots("", &files, &funcs), Vec::<usize>::new());
    assert_eq!(user_code_hotspots("none.py", &files, &funcs), Vec::<usize>::new());
}

#[test]
fn hotspot_names_and_advice() {
    assert_eq!(short_function_name("slow_function"), "slow_function");
    assert_eq!(short_function_name(&"a".repeat(28)), "a".repeat(28));
    assert_eq!(short_function_name(&"b".repeat(29)), format!("{}...", "b".repeat(25)));
    assert_eq!(node_short_name(&"c".repeat(27)), format!("{}...", "c".repeat(23)));
    assert_eq!(hotspot_advice(true, 1, false), Some(HotspotAdvice::OffloadCandidate));
    assert_eq!(hotspot_advice(false, 10_001, true), Some(HotspotAdvice::CacheOrVectorize));
    assert_eq!(hotspot_advice(false, 10_000, true), Some(HotspotAdvice::CheckBlockingCalls));
    assert_eq!(hotspot_advice(false, 3, false), None);
}
