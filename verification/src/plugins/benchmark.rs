//! The Python live benchmark: code templates for each pattern, the
//! generated benchmark scripts, the reading of their output, and the plan
//! of the load scaling test.

use vstd::prelude::*;
use crate::script_output::decimal;
use crate::script_output::push_decimal;
use crate::script_output::field_value;
use crate::script_output::key_value;
use crate::script_output::last_field;
use crate::text::lines_of;
use crate::text::push_str;
use crate::text::same_text;

verus! {

/// The pure-Python code and the `fast_ops` call that the live benchmark
/// times for a pattern, with `n` the problem size; `None` for patterns
/// without a template. Matrix sizes are capped at 150 and string lengths
/// at 50 000 to keep the demonstration short.
pub open spec fn python_template(pattern: Seq<char>, n: u64) -> Option<(Seq<char>, Seq<char>)> {
    if pattern == "sum_of_squares_loop"@ {
        Some((
            "total = 0\nfor i in range("@ + decimal(n as nat) + "):\n    total += i * i\n"@,
            "fast_ops.sum_of_squares("@ + decimal(n as nat) + ")"@,
        ))
    } else if pattern == "range_sum_loop"@ {
        Some((
            "total = 0\nfor i in range("@ + decimal(n as nat) + "):\n    total += i\n"@,
            "fast_ops.fast_range_sum("@ + decimal(n as nat) + ")"@,
        ))
    } else if pattern == "fibonacci"@ {
        Some((
            "a, b = 0, 1\nfor _ in range("@ + decimal(n as nat) + "):\n    a, b = b, a + b\n"@,
            "fast_ops.fibonacci("@ + decimal(n as nat) + ")"@,
        ))
    } else if pattern == "nested_loop_matrix"@ {
        let m = decimal(if n < 150 { n as nat } else { 150 });
        Some((
            "n = "@ + m
                + "\na = [[1.0]*n for _ in range(n)]\nb = [[1.0]*n for _ in range(n)]\nresult = [[0.0]*n for _ in range(n)]\nfor i in range(n):\n    for j in range(n):\n        for k in range(n):\n            result[i][j] += a[i][k] * b[k][j]\n"@,
            "fast_ops.matrix_multiply([1.0]*("@ + m + "*"@ + m + "), [1.0]*("@ + m + "*"@ + m
                + "), "@ + m + ")"@,
        ))
    } else if pattern == "string_concat_loop"@ {
        let m = decimal(if n < 50000 { n as nat } else { 50000 });
        Some((
            "result = ''\nfor i in range("@ + m + "):\n    result += str(i)\n"@,
            "fast_ops.fast_string_join([str(i) for i in range("@ + m + ")])"@,
        ))
    } else {
        None
    }
}

/// The views of an optional pair of strings.
pub open spec fn pair_view(p: Option<(String, String)>) -> Option<(Seq<char>, Seq<char>)> {
    match p {
        Some((a, b)) => Some((a@, b@)),
        None => None,
    }
}

/// The benchmark code for a pattern (see [`python_template`]).
pub fn build_template(pattern_name: &str, n_hint: u64) -> (r: Option<(String, String)>)
    ensures
        pair_view(r) == python_template(pattern_name@, n_hint),
{
    if same_text(pattern_name, "sum_of_squares_loop") {
        let mut code = String::new();
        push_str(&mut code, "total = 0\nfor i in range(");
        push_decimal(&mut code, n_hint);
        push_str(&mut code, "):\n    total += i * i\n");
        let mut call = String::new();
        push_str(&mut call, "fast_ops.sum_of_squares(");
        push_decimal(&mut call, n_hint);
        push_str(&mut call, ")");
        Some((code, call))
    } else if same_text(pattern_name, "range_sum_loop") {
        let mut code = String::new();
        push_str(&mut code, "total = 0\nfor i in range(");
        push_decimal(&mut code, n_hint);
        push_str(&mut code, "):\n    total += i\n");
        let mut call = String::new();
        push_str(&mut call, "fast_ops.fast_range_sum(");
        push_decimal(&mut call, n_hint);
        push_str(&mut call, ")");
        Some((code, call))
    } else if same_text(pattern_name, "fibonacci") {
        let mut code = String::new();
        push_str(&mut code, "a, b = 0, 1\nfor _ in range(");
        push_decimal(&mut code, n_hint);
        push_str(&mut code, "):\n    a, b = b, a + b\n");
        let mut call = String::new();
        push_str(&mut call, "fast_ops.fibonacci(");
        push_decimal(&mut call, n_hint);
        push_str(&mut call, ")");
        Some((code, call))
    } else if same_text(pattern_name, "nested_loop_matrix") {
        let n = if n_hint < 150 { n_hint } else { 150 };
        let mut code = String::new();
        push_str(&mut code, "n = ");
        push_decimal(&mut code, n);
        push_str(
            &mut code,
            "\na = [[1.0]*n for _ in range(n)]\nb = [[1.0]*n for _ in range(n)]\nresult = [[0.0]*n for _ in range(n)]\nfor i in range(n):\n    for j in range(n):\n        for k in range(n):\n            result[i][j] += a[i][k] * b[k][j]\n",
        );
        let mut call = String::new();
        push_str(&mut call, "fast_ops.matrix_multiply([1.0]*(");
        push_decimal(&mut call, n);
        push_str(&mut call, "*");
        push_decimal(&mut call, n);
        push_str(&mut call, "), [1.0]*(");
        push_decimal(&mut call, n);
        push_str(&mut call, "*");
        push_decimal(&mut call, n);
        push_str(&mut call, "), ");
        push_decimal(&mut call, n);
        push_str(&mut call, ")");
        Some((code, call))
    } else if same_text(pattern_name, "string_concat_loop") {
        let n = if n_hint < 50000 { n_hint } else { 50000 };
        let mut code = String::new();
        push_str(&mut code, "result = ''\nfor i in range(");
        push_decimal(&mut code, n);
        push_str(&mut code, "):\n    result += str(i)\n");
        let mut call = String::new();
        push_str(&mut call, "fast_ops.fast_string_join([str(i) for i in range(");
        push_decimal(&mut call, n);
        push_str(&mut call, ")])");
        Some((code, call))
    } else {
        None
    }
}

/// The Python script that times the pure-Python code and then the
/// `fast_ops` call, printing `PYTHON_TIME=` and `RUST_TIME=` lines.
pub open spec fn live_script(py_code: Seq<char>, rust_call: Seq<char>) -> Seq<char> {
    "\nimport time\ntry:\n    import fast_ops\n    HAS_RUST = True\nexcept ImportError:\n    HAS_RUST = False\n\nstart = time.time()\n"@
        + py_code
        + "\npy_time = time.time() - start\nprint(f\"PYTHON_TIME={py_time:.6f}\")\n\nif HAS_RUST:\n    start = time.time()\n    rust_result = "@
        + rust_call
        + "\n    rust_time = time.time() - start\n    print(f\"RUST_TIME={rust_time:.6f}\")\nelse:\n    print(\"RUST_TIME=NA\")\n"@
}

/// The live benchmark script for the given code and call.
pub fn live_benchmark_script(py_code: &str, rust_call: &str) -> (s: String)
    ensures
        s@ == live_script(py_code@, rust_call@),
{
    let mut s = String::new();
    push_str(
        &mut s,
        "\nimport time\ntry:\n    import fast_ops\n    HAS_RUST = True\nexcept ImportError:\n    HAS_RUST = False\n\nstart = time.time()\n",
    );
    push_str(&mut s, py_code);
    push_str(
        &mut s,
        "\npy_time = time.time() - start\nprint(f\"PYTHON_TIME={py_time:.6f}\")\n\nif HAS_RUST:\n    start = time.time()\n    rust_result = ",
    );
    push_str(&mut s, rust_call);
    push_str(
        &mut s,
        "\n    rust_time = time.time() - start\n    print(f\"RUST_TIME={rust_time:.6f}\")\nelse:\n    print(\"RUST_TIME=NA\")\n",
    );
    s
}

/// The views of an optional string.
pub open spec fn opt_view(o: Option<String>) -> Option<Seq<char>> {
    match o {
        Some(s) => Some(s@),
        None => None,
    }
}

/// The Python and Rust timings that a live benchmark printed, as text: the
/// last `PYTHON_TIME=` value, and the last `RUST_TIME=` value that is not
/// `NA`.
pub fn live_timings(output: &str) -> (r: (Option<String>, Option<String>))
    ensures
        opt_view(r.0) == last_field(lines_of(output@), "PYTHON_TIME="@, false),
        opt_view(r.1) == last_field(lines_of(output@), "RUST_TIME="@, true),
{
    let py = field_value(output, "PYTHON_TIME=", false);
    let rust = field_value(output, "RUST_TIME=", true);
    (py, rust)
}

/// The Python script of one step of the load scaling test: pure Python,
/// single-threaded Rust and parallel Rust on the list `0..n`.
pub open spec fn scaling_script(n: u64) -> Seq<char> {
    "\nimport time\nimport fast_ops\n\nn = "@ + decimal(n as nat)
        + "\ndata = list(range(n))\n\nstart = time.time()\ntotal = 0\nfor i in data:\n    total += i * i\npy_time = time.time() - start\n\nstart = time.time()\nfast_ops.sum_of_squares(n)\nsingle_time = time.time() - start\n\nstart = time.time()\nfast_ops.batch_sum_of_squares(data, 50000)\nparallel_time = time.time() - start\n\nprint(f\"N={n}\")\nprint(f\"PYTHON={py_time:.6f}\")\nprint(f\"RUST_SINGLE={single_time:.6f}\")\nprint(f\"RUST_PARALLEL={parallel_time:.6f}\")\n"@
}

/// The script of one scaling step of size `n`.
pub fn scaling_step_script(n: u64) -> (s: String)
    ensures
        s@ == scaling_script(n),
{
    let mut s = String::new();
    push_str(&mut s, "\nimport time\nimport fast_ops\n\nn = ");
    push_decimal(&mut s, n);
    push_str(
        &mut s,
        "\ndata = list(range(n))\n\nstart = time.time()\ntotal = 0\nfor i in data:\n    total += i * i\npy_time = time.time() - start\n\nstart = time.time()\nfast_ops.sum_of_squares(n)\nsingle_time = time.time() - start\n\nstart = time.time()\nfast_ops.batch_sum_of_squares(data, 50000)\nparallel_time = time.time() - start\n\nprint(f\"N={n}\")\nprint(f\"PYTHON={py_time:.6f}\")\nprint(f\"RUST_SINGLE={single_time:.6f}\")\nprint(f\"RUST_PARALLEL={parallel_time:.6f}\")\n",
    );
    s
}

/// The Python, single-threaded and parallel timings of a scaling step, as
/// text: the values of the keys `PYTHON`, `RUST_SINGLE`, `RUST_PARALLEL`.
pub fn scaling_timings(output: &str) -> (r: (Option<String>, Option<String>, Option<String>))
    ensures
        opt_view(r.0) == last_field(lines_of(output@), "PYTHON="@, false),
        opt_view(r.1) == last_field(lines_of(output@), "RUST_SINGLE="@, false),
        opt_view(r.2) == last_field(lines_of(output@), "RUST_PARALLEL="@, false),
{
    proof {
        reveal_strlit("PYTHON");
        reveal_strlit("RUST_SINGLE");
        reveal_strlit("RUST_PARALLEL");
        reveal_strlit("PYTHON=");
        reveal_strlit("RUST_SINGLE=");
        reveal_strlit("RUST_PARALLEL=");
    }
    let py = key_value(output, "PYTHON");
    let single = key_value(output, "RUST_SINGLE");
    let par = key_value(output, "RUST_PARALLEL");
    assert("PYTHON"@.push('=') =~= "PYTHON="@);
    assert("RUST_SINGLE"@.push('=') =~= "RUST_SINGLE="@);
    assert("RUST_PARALLEL"@.push('=') =~= "RUST_PARALLEL="@);
    (py, single, par)
}

/// One run of the load scaling test.
#[derive(Debug, Clone, Copy, PartialEq, Eq, Structural)]
pub enum ScalingRun {
    /// A live benchmark of the pattern at this size.
    LiveBenchmark(u64),
    /// A three-way scaling step (Python, Rust, parallel Rust) at this size.
    ScalingStep(u64),
}

/// The loads of the scaling test, growing: one, ten and fifty million.
pub open spec fn scaling_sizes() -> Seq<u64> {
    seq![1_000_000u64, 10_000_000u64, 50_000_000u64]
}

/// The runs of the load scaling test for a pattern: three-way scaling steps
/// for the sum-of-squares pattern, which has a parallel variant, and live
/// benchmarks at the same loads for every other pattern.
pub open spec fn scaling_plan(pattern: Seq<char>) -> Seq<ScalingRun> {
    if pattern == "sum_of_squares_loop"@ {
        scaling_sizes().map_values(|n: u64| ScalingRun::ScalingStep(n))
    } else {
        scaling_sizes().map_values(|n: u64| ScalingRun::LiveBenchmark(n))
    }
}

/// The runs of the load scaling test for a pattern.
pub fn load_scaling_plan(pattern_name: &str) -> (v: Vec<ScalingRun>)
    ensures
        v@ == scaling_plan(pattern_name@),
{
    let parallel = same_text(pattern_name, "sum_of_squares_loop");
    let mut v: Vec<ScalingRun> = Vec::new();
    if parallel {
        v.push(ScalingRun::ScalingStep(1_000_000));
        v.push(ScalingRun::ScalingStep(10_000_000));
        v.push(ScalingRun::ScalingStep(50_000_000));
    } else {
        v.push(ScalingRun::LiveBenchmark(1_000_000));
        v.push(ScalingRun::LiveBenchmark(10_000_000));
        v.push(ScalingRun::LiveBenchmark(50_000_000));
    }
    assert(v@ =~= scaling_plan(pattern_name@));
    v
}

/// What follows pattern detection: the scaling test, a live benchmark of
/// the given size, or only a tip about the flags.
#[derive(Debug, Clone, Copy, PartialEq, Eq, Structural)]
pub enum BenchmarkPlan {
    ScalingTest,
    LiveBenchmark(u64),
    TipOnly,
}

/// The plan after a pattern was found: `--scaling-test` wins over
/// `--accelerate`; the live benchmark's size is the hotspot's count times
/// `factor`, or ten million when the count is at most 1.
pub open spec fn plan_for(scaling_test: bool, accelerate: bool, count: u64, factor: u64) -> BenchmarkPlan {
    if scaling_test {
        BenchmarkPlan::ScalingTest
    } else if accelerate {
        BenchmarkPlan::LiveBenchmark(if count > 1 { (count * factor) as u64 } else { 10_000_000 })
    } else {
        BenchmarkPlan::TipOnly
    }
}

/// The plan after a pattern was found (see [`plan_for`]). The size must fit
/// in 64 bits when it is computed.
pub fn benchmark_plan(scaling_test: bool, accelerate: bool, count: u64, factor: u64) -> (p: BenchmarkPlan)
    requires
        scaling_test || !accelerate || count <= 1 || count * factor <= u64::MAX,
    ensures
        p == plan_for(scaling_test, accelerate, count, factor),
{
    if scaling_test {
        BenchmarkPlan::ScalingTest
    } else if accelerate {
        let n = if count > 1 { count * factor } else { 10_000_000 };
        BenchmarkPlan::LiveBenchmark(n)
    } else {
        BenchmarkPlan::TipOnly
    }
}

/// `--scaling-test` always runs the scaling test, whatever `--accelerate`
/// and the hotspot say; otherwise `--accelerate` runs a live benchmark whose
/// size is the hotspot's count times the factor (ten million for a count of
/// at most 1); with neither flag only the tip is shown.
pub proof fn lemma_plan_follows_flags(scaling_test: bool, accelerate: bool, count: u64, factor: u64)
    ensures
        scaling_test ==> plan_for(scaling_test, accelerate, count, factor) == BenchmarkPlan::ScalingTest,
        !scaling_test && accelerate && count > 1 && count * factor <= u64::MAX ==> plan_for(
            scaling_test,
            accelerate,
            count,
            factor,
        ) == BenchmarkPlan::LiveBenchmark((count * factor) as u64),
        !scaling_test && accelerate && count <= 1 ==> plan_for(scaling_test, accelerate, count, factor)
            == BenchmarkPlan::LiveBenchmark(10_000_000),
        !scaling_test && !accelerate ==> plan_for(scaling_test, accelerate, count, factor)
            == BenchmarkPlan::TipOnly,
        plan_for(scaling_test, accelerate, count, factor) == BenchmarkPlan::ScalingTest <==> scaling_test,
        plan_for(scaling_test, accelerate, count, factor) == BenchmarkPlan::TipOnly <==> (!scaling_test
            && !accelerate),
{
}

/// `text` starts with `prefix`, then the decimal notation of `n`, then the
/// character `after`: the size written at that place is `n`.
pub open spec fn writes_size(text: Seq<char>, prefix: Seq<char>, n: nat, after: char) -> bool {
    let d = decimal(n);
    &&& text.len() > prefix.len() + d.len()
    &&& text.subrange(0, prefix.len() as int) == prefix
    &&& text.subrange(prefix.len() as int, (prefix.len() + d.len()) as int) == d
    &&& text[(prefix.len() + d.len()) as int] == after
}

proof fn lemma_writes_size_of(prefix: Seq<char>, n: nat, after: char, rest: Seq<char>)
    requires
        rest.len() > 0,
        rest[0] == after,
    ensures
        writes_size(prefix + decimal(n) + rest, prefix, n, after),
{
    let t = prefix + decimal(n) + rest;
    assert(t.subrange(0, prefix.len() as int) =~= prefix);
    assert(t.subrange(prefix.len() as int, (prefix.len() + decimal(n).len()) as int) =~= decimal(n));
    assert(t[(prefix.len() + decimal(n).len()) as int] == rest[0]);
}

/// The sizes the templates write: the string-building template writes the
/// hint capped at 50 000, into both the code and the call; the matrix
/// template writes the hint capped at 150; the other templates write the
/// hint itself. Above a cap the template no longer depends on the hint.
pub proof fn lemma_template_sizes(n: u64)
    ensures
        python_template("string_concat_loop"@, n) matches Some((code, call)) && writes_size(
            code,
            "result = ''\nfor i in range("@,
            if n <= 50000 { n as nat } else { 50000 },
            ')',
        ) && writes_size(
            call,
            "fast_ops.fast_string_join([str(i) for i in range("@,
            if n <= 50000 { n as nat } else { 50000 },
            ')',
        ),
        n >= 50000 ==> python_template("string_concat_loop"@, n) == python_template(
            "string_concat_loop"@,
            50000,
        ),
        python_template("nested_loop_matrix"@, n) matches Some((code, call)) && writes_size(
            code,
            "n = "@,
            if n <= 150 { n as nat } else { 150 },
            '\n',
        ) && writes_size(
            call,
            "fast_ops.matrix_multiply([1.0]*("@,
            if n <= 150 { n as nat } else { 150 },
            '*',
        ),
        n >= 150 ==> python_template("nested_loop_matrix"@, n) == python_template(
            "nested_loop_matrix"@,
            150,
        ),
        python_template("sum_of_squares_loop"@, n) matches Some((code, call)) && writes_size(
            code,
            "total = 0\nfor i in range("@,
            n as nat,
            ')',
        ) && writes_size(call, "fast_ops.sum_of_squares("@, n as nat, ')'),
        python_template("range_sum_loop"@, n) matches Some((code, call)) && writes_size(
            code,
            "total = 0\nfor i in range("@,
            n as nat,
            ')',
        ) && writes_size(call, "fast_ops.fast_range_sum("@, n as nat, ')'),
        python_template("fibonacci"@, n) matches Some((code, call)) && writes_size(
            code,
            "a, b = 0, 1\nfor _ in range("@,
            n as nat,
            ')',
        ) && writes_size(call, "fast_ops.fibonacci("@, n as nat, ')'),
{
    reveal_strlit("sum_of_squares_loop");
    reveal_strlit("range_sum_loop");
    reveal_strlit("fibonacci");
    reveal_strlit("nested_loop_matrix");
    reveal_strlit("string_concat_loop");
    reveal_strlit("):\n    total += i * i\n");
    reveal_strlit("):\n    total += i\n");
    reveal_strlit("):\n    a, b = b, a + b\n");
    reveal_strlit(")");
    reveal_strlit("):\n    result += str(i)\n");
    reveal_strlit(")])");
    reveal_strlit("*");
    reveal_strlit(
        "\na = [[1.0]*n for _ in range(n)]\nb = [[1.0]*n for _ in range(n)]\nresult = [[0.0]*n for _ in range(n)]\nfor i in range(n):\n    for j in range(n):\n        for k in range(n):\n            result[i][j] += a[i][k] * b[k][j]\n",
    );
    assert("string_concat_loop"@[0] != "nested_loop_matrix"@[0]);
    assert("string_concat_loop"@[0] != "sum_of_squares_loop"@[0] || "string_concat_loop"@.len()
        != "sum_of_squares_loop"@.len());
    assert("string_concat_loop"@ != "nested_loop_matrix"@);
    assert("nested_loop_matrix"@ != "string_concat_loop"@);
    assert("fibonacci"@.len() != "sum_of_squares_loop"@.len());
    assert("fibonacci"@.len() != "range_sum_loop"@.len());
    assert("fibonacci"@ != "sum_of_squares_loop"@);
    assert("fibonacci"@ != "range_sum_loop"@);
    assert("range_sum_loop"@ != "sum_of_squares_loop"@);
    let cap_s: nat = if n < 50000 { n as nat } else { 50000 };
    let cap_m: nat = if n < 150 { n as nat } else { 150 };
    assert(cap_s == if n <= 50000 { n as nat } else { 50000 });
    assert(cap_m == if n <= 150 { n as nat } else { 150 });
    lemma_writes_size_of("total = 0\nfor i in range("@, n as nat, ')', "):\n    total += i * i\n"@);
    lemma_writes_size_of("fast_ops.sum_of_squares("@, n as nat, ')', ")"@);
    lemma_writes_size_of("total = 0\nfor i in range("@, n as nat, ')', "):\n    total += i\n"@);
    lemma_writes_size_of("fast_ops.fast_range_sum("@, n as nat, ')', ")"@);
    lemma_writes_size_of("a, b = 0, 1\nfor _ in range("@, n as nat, ')', "):\n    a, b = b, a + b\n"@);
    lemma_writes_size_of("fast_ops.fibonacci("@, n as nat, ')', ")"@);
    lemma_writes_size_of("result = ''\nfor i in range("@, cap_s, ')', "):\n    result += str(i)\n"@);
    lemma_writes_size_of("fast_ops.fast_string_join([str(i) for i in range("@, cap_s, ')', ")])"@);
    let m = decimal(cap_m);
    lemma_writes_size_of(
        "n = "@,
        cap_m,
        '\n',
        "\na = [[1.0]*n for _ in range(n)]\nb = [[1.0]*n for _ in range(n)]\nresult = [[0.0]*n for _ in range(n)]\nfor i in range(n):\n    for j in range(n):\n        for k in range(n):\n            result[i][j] += a[i][k] * b[k][j]\n"@,
    );
    let call_rest = "*"@ + m + "), [1.0]*("@ + m + "*"@ + m + "), "@ + m + ")"@;
    lemma_writes_size_of("fast_ops.matrix_multiply([1.0]*("@, cap_m, '*', call_rest);
    assert("fast_ops.matrix_multiply([1.0]*("@ + m + call_rest =~= "fast_ops.matrix_multiply([1.0]*("@
        + m + "*"@ + m + "), [1.0]*("@ + m + "*"@ + m + "), "@ + m + ")"@);
}

} // verus!
