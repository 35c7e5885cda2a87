use prime_accelerator::plugins::benchmark::{
    benchmark_plan, build_template, live_benchmark_script, live_timings, load_scaling_plan,
    scaling_step_script, scaling_timings, BenchmarkPlan, ScalingRun,
};
use prime_accelerator::plugins::node_benchmark;
use prime_accelerator::script_output::{field_value, key_value};

#[test]
fn python_templates() {
    let (code, call) = build_template("sum_of_squares_loop", 1234).unwrap();
    assert_eq!(code, "total = 0\nfor i in range(1234):\n    total += i * i\n");
    assert_eq!(call, "fast_ops.sum_of_squares(1234)");
    let (code, call) = build_template("range_sum_loop", 0).unwrap();
    assert_eq!(code, "total = 0\nfor i in range(0):\n    total += i\n");
    assert_eq!(call, "fast_ops.fast_range_sum(0)");
    let (code, call) = build_template("fibonacci", 18446744073709551615).unwrap();
    assert_eq!(code, "a, b = 0, 1\nfor _ in range(18446744073709551615):\n    a, b = b, a + b\n");
    assert_eq!(call, "fast_ops.fibonacci(18446744073709551615)");
    assert!(build_template("list_append_loop", 10).is_none());
}

#[test]
fn python_templates_cap_sizes() {
    let n = 150;
    let expected_code = format!(
        "n = {n}\na = [[1.0]*n for _ in range(n)]\nb = [[1.0]*n for _ in range(n)]\nresult = [[0.0]*n for _ in range(n)]\nfor i in range(n):\n    for j in range(n):\n        for k in range(n):\n            result[i][j] += a[i][k] * b[k][j]\n",
        n = n
    );
    let (code, call) = build_template("nested_loop_matrix", 1_000_000).unwrap();
    assert_eq!(code, expected_code);
    assert_eq!(call, "fast_ops.matrix_multiply([1.0]*(150*150), [1.0]*(150*150), 150)");
    let (_, small) = build_template("nested_loop_matrix", 7).unwrap();
    assert_eq!(small, "fast_ops.matrix_multiply([1.0]*(7*7), [1.0]*(7*7), 7)");
    let (code, call) = build_template("string_concat_loop", 10_000_000).unwrap();
    assert_eq!(code, "result = ''\nfor i in range(50000):\n    result += str(i)\n");
    assert_eq!(call, "fast_ops.fast_string_join([str(i) for i in range(50000)])");
}

#[test]
fn python_scripts_match_their_templates() {
    let py_code = "x = 1\n";
    let rust_call = "fast_ops.f(1)";
    let expected = format!(
r#"
import time
try:
    import fast_ops
    HAS_RUST = True
except ImportError:
    HAS_RUST = False

start = time.time()
{py_code}
py_time = time.time() - start
print(f"PYTHON_TIME={{py_time:.6f}}")

if HAS_RUST:
    start = time.time()
    rust_result = {rust_call}
    rust_time = time.time() - start
    print(f"RUST_TIME={{rust_time:.6f}}")
else:
    print("RUST_TIME=NA")
"#,
        py_code = py_code, rust_call = rust_call
    );
    assert_eq!(live_benchmark_script(py_code, rust_call), expected);
    let n = 1_000_000u64;
    let expected = format!(r#"
import time
import fast_ops

n = {n}
data = list(range(n))

start = time.time()
total = 0
for i in data:
    total += i * i
py_time = time.time() - start

start = time.time()
fast_ops.sum_of_squares(n)
single_time = time.time() - start

start = time.time()
fast_ops.batch_sum_of_squares(data, 50000)
parallel_time = time.time() - start

print(f"N={{n}}")
print(f"PYTHON={{py_time:.6f}}")
print(f"RUST_SINGLE={{single_time:.6f}}")
print(f"RUST_PARALLEL={{parallel_time:.6f}}")
"#, n = n);
    assert_eq!(scaling_step_script(n), expected);
}

#[test]
fn reading_live_timings() {
    let out = "noise\nPYTHON_TIME=1.500000\nRUST_TIME=0.020000\n";
    assert_eq!(live_timings(out), (Some("1.500000".to_string()), Some("0.020000".to_string())));
    let out = "PYTHON_TIME=2.0\nRUST_TIME=NA\n";
    assert_eq!(live_timings(out), (Some("2.0".to_string()), None));
    let out = "RUST_TIME=0.5\nRUST_TIME=NA\r\nPYTHON_TIME=1\nPYTHON_TIME=3";
    assert_eq!(live_timings(out), (Some("3".to_string()), Some("0.5".to_string())));
    assert_eq!(live_timings(""), (None, None));
}

#[test]
fn reading_scaling_timings() {
    let out = "N=1000\nPYTHON=0.12\nRUST_SINGLE=0.008\nRUST_PARALLEL=0.0025\n";
    assert_eq!(
        scaling_timings(out),
        (Some("0.12".to_string()), Some("0.008".to_string()), Some("0.0025".to_string()))
    );
    assert_eq!(scaling_timings("PYTHON=1\nPYTHON=2\n").0, Some("2".to_string()));
    assert_eq!(scaling_timings("garbage").1, None);
    assert_eq!(key_value("A=1=2\nB=3", "A"), Some("1=2".to_string()));
    assert_eq!(key_value("AB=1", "A"), None);
    assert_eq!(field_value("x: 1\nx: 2\n", "x: ", false), Some("2".to_string()));
}

#[test]
fn scaling_plans() {
    assert_eq!(
        load_scaling_plan("sum_of_squares_loop"),
        vec![
            ScalingRun::ScalingStep(1_000_000),
            ScalingRun::ScalingStep(10_000_000),
            ScalingRun::ScalingStep(50_000_000)
        ]
    );
    assert_eq!(
        load_scaling_plan("range_sum_loop"),
        vec![
            ScalingRun::LiveBenchmark(1_000_000),
            ScalingRun::LiveBenchmark(10_000_000),
            ScalingRun::LiveBenchmark(50_000_000)
        ]
    );
}

#[test]
fn benchmark_plans() {
    assert_eq!(benchmark_plan(true, true, 5, 100), BenchmarkPlan::ScalingTest);
    assert_eq!(benchmark_plan(false, true, 5, 100), BenchmarkPlan::LiveBenchmark(500));
    assert_eq!(benchmark_plan(false, true, 1, 100), BenchmarkPlan::LiveBenchmark(10_000_000));
    assert_eq!(benchmark_plan(false, true, 0, 1000), BenchmarkPlan::LiveBenchmark(10_000_000));
    assert_eq!(benchmark_plan(false, true, 7, 1000), BenchmarkPlan::LiveBenchmark(7000));
    assert_eq!(benchmark_plan(false, false, 7, 1000), BenchmarkPlan::TipOnly);
}

#[test]
fn node_templates_and_scripts() {
    let (code, call) = node_benchmark::build_template("sum_of_squares_loop", 42).unwrap();
    assert_eq!(code, "let total = 0;\nfor (let i = 0; i < 42; i++) { total += i * i; }");
    assert_eq!(call, "fastOps.sumOfSquares(42)");
    let (code, call) = node_benchmark::build_template("range_sum_loop", 9).unwrap();
    assert_eq!(code, "let total = 0;\nfor (let i = 0; i < 9; i++) { total += i; }");
    assert_eq!(call, "fastOps.fastRangeSum(9)");
    assert!(node_benchmark::build_template("nested_loop_matrix", 9).is_none());

    let path = "C:/work/fast_ops_node/index.js";
    let expected = format!(
r#"
let fastOps = null;
try {{ fastOps = require('{fast_ops_path}'); }} catch (e) {{}}

let start = process.hrtime.bigint();
{js_code}
let jsTime = Number(process.hrtime.bigint() - start) / 1e9;
console.log("JS_TIME=" + jsTime.toFixed(6));

if (fastOps) {{
  start = process.hrtime.bigint();
  const result = {native_call};
  let nativeTime = Number(process.hrtime.bigint() - start) / 1e9;
  console.log("NATIVE_TIME=" + nativeTime.toFixed(6));
}} else {{
  console.log("NATIVE_TIME=NA");
}}
"#,
        fast_ops_path = path, js_code = code, native_call = call
    );
    assert_eq!(node_benchmark::live_benchmark_script(path, &code, &call), expected);

    let n = 10_000_000u64;
    let expected = format!(r#"
let fastOps = null;
try {{ fastOps = require('{fast_ops_path}'); }} catch (e) {{}}

const n = {n};
const data = Array.from({{length: n}}, (_, i) => i);

let start = process.hrtime.bigint();
let total = 0;
for (let i = 0; i < n; i++) {{ total += i * i; }}
let jsTime = Number(process.hrtime.bigint() - start) / 1e9;

let singleTime = -1, parallelTime = -1;
if (fastOps) {{
  start = process.hrtime.bigint();
  fastOps.sumOfSquares(n);
  singleTime = Number(process.hrtime.bigint() - start) / 1e9;

  start = process.hrtime.bigint();
  fastOps.batchSumOfSquares(data);
  parallelTime = Number(process.hrtime.bigint() - start) / 1e9;
}}

console.log("N=" + n);
console.log("JS=" + jsTime.toFixed(6));
console.log("SINGLE=" + singleTime.toFixed(6));
console.log("PARALLEL=" + parallelTime.toFixed(6));
"#, fast_ops_path = path, n = n);
    assert_eq!(node_benchmark::scaling_step_script(path, n), expected);
}

#[test]
fn node_output_and_paths() {
    assert_eq!(
        node_benchmark::live_timings("JS_TIME=0.5\nNATIVE_TIME=0.01\n"),
        (Some("0.5".to_string()), Some("0.01".to_string()))
    );
    assert_eq!(
        node_benchmark::live_timings("JS_TIME=0.5\nNATIVE_TIME=NA\n"),
        (Some("0.5".to_string()), None)
    );
    assert_eq!(
        node_benchmark::scaling_timings("N=5\nJS=1.0\nSINGLE=-1.000000\nPARALLEL=-1.000000\n"),
        (Some("1.0".to_string()), Some("-1.000000".to_string()), Some("-1.000000".to_string()))
    );
    assert_eq!(
        node_benchmark::to_forward_slashes("C:\\work\\fast_ops_node\\index.js"),
        "C:/work/fast_ops_node/index.js"
    );
}
