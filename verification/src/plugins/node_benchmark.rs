//! The Node.js live benchmark: code templates, the generated scripts and
//! the reading of their output.

use vstd::prelude::*;
use crate::plugins::benchmark::opt_view;
use crate::plugins::benchmark::pair_view;
use crate::script_output::decimal;
use crate::script_output::field_value;
use crate::script_output::key_value;
use crate::script_output::last_field;
use crate::script_output::push_decimal;
use crate::text::chars_of;
use crate::text::lines_of;
use crate::text::push_char;
use crate::text::push_str;
use crate::text::same_text;

verus! {

/// The JavaScript code and the native call that the live benchmark times
/// for a pattern, with `n` the problem size; `None` for patterns without a
/// template.
pub open spec fn node_template(pattern: Seq<char>, n: u64) -> Option<(Seq<char>, Seq<char>)> {
    if pattern == "sum_of_squares_loop"@ {
        Some((
            "let total = 0;\nfor (let i = 0; i < "@ + decimal(n as nat) + "; i++) { total += i * i; }"@,
            "fastOps.sumOfSquares("@ + decimal(n as nat) + ")"@,
        ))
    } else if pattern == "range_sum_loop"@ {
        Some((
            "let total = 0;\nfor (let i = 0; i < "@ + decimal(n as nat) + "; i++) { total += i; }"@,
            "fastOps.fastRangeSum("@ + decimal(n as nat) + ")"@,
        ))
    } else {
        None
    }
}

/// The benchmark code for a pattern (see [`node_template`]).
pub fn build_template(pattern_name: &str, n_hint: u64) -> (r: Option<(String, String)>)
    ensures
        pair_view(r) == node_template(pattern_name@, n_hint),
{
    if same_text(pattern_name, "sum_of_squares_loop") {
        let mut code = String::new();
        push_str(&mut code, "let total = 0;\nfor (let i = 0; i < ");
        push_decimal(&mut code, n_hint);
        push_str(&mut code, "; i++) { total += i * i; }");
        let mut call = String::new();
        push_str(&mut call, "fastOps.sumOfSquares(");
        push_decimal(&mut call, n_hint);
        push_str(&mut call, ")");
        Some((code, call))
    } else if same_text(pattern_name, "range_sum_loop") {
        let mut code = String::new();
        push_str(&mut code, "let total = 0;\nfor (let i = 0; i < ");
        push_decimal(&mut code, n_hint);
        push_str(&mut code, "; i++) { total += i; }");
        let mut call = String::new();
        push_str(&mut call, "fastOps.fastRangeSum(");
        push_decimal(&mut call, n_hint);
        push_str(&mut call, ")");
        Some((code, call))
    } else {
        None
    }
}

/// A path with every backslash turned into a forward slash.
pub open spec fn forward_slashes(path: Seq<char>) -> Seq<char> {
    path.map_values(|c: char| if c == '\\' { '/' } else { c })
}

/// Turns the backslashes of a path into forward slashes, so that it can
/// stand in a JavaScript string.
pub fn to_forward_slashes(path: &str) -> (r: String)
    ensures
        r@ == forward_slashes(path@),
{
    let chars = chars_of(path);
    let mut r = String::new();
    let mut i: usize = 0;
    while i < chars.len()
        invariant
            0 <= i <= chars@.len(),
            chars@ == path@,
            r@ == forward_slashes(path@).take(i as int),
        decreases chars@.len() - i,
    {
        let c = chars[i];
        push_char(&mut r, if c == '\\' { '/' } else { c });
        assert(forward_slashes(path@).take(i + 1) =~= forward_slashes(path@).take(i as int).push(
            if c == '\\' { '/' } else { c },
        ));
        i += 1;
    }
    assert(forward_slashes(path@).take(chars@.len() as int) =~= forward_slashes(path@));
    r
}

/// The JavaScript that loads the native addon from `addon_path`, times the
/// JavaScript code and then the native call, printing `JS_TIME=` and
/// `NATIVE_TIME=` lines.
pub open spec fn node_live_script(addon_path: Seq<char>, js_code: Seq<char>, native_call: Seq<char>) -> Seq<char> {
    "\nlet fastOps = null;\ntry { fastOps = require('"@ + addon_path
        + "'); } catch (e) {}\n\nlet start = process.hrtime.bigint();\n"@ + js_code
        + "\nlet jsTime = Number(process.hrtime.bigint() - start) / 1e9;\nconsole.log(\"JS_TIME=\" + jsTime.toFixed(6));\n\nif (fastOps) {\n  start = process.hrtime.bigint();\n  const result = "@
        + native_call
        + ";\n  let nativeTime = Number(process.hrtime.bigint() - start) / 1e9;\n  console.log(\"NATIVE_TIME=\" + nativeTime.toFixed(6));\n} else {\n  console.log(\"NATIVE_TIME=NA\");\n}\n"@
}

/// The live benchmark script for the given addon path, code and call.
pub fn live_benchmark_script(addon_path: &str, js_code: &str, native_call: &str) -> (s: String)
    ensures
        s@ == node_live_script(addon_path@, js_code@, native_call@),
{
    let mut s = String::new();
    push_str(&mut s, "\nlet fastOps = null;\ntry { fastOps = require('");
    push_str(&mut s, addon_path);
    push_str(&mut s, "'); } catch (e) {}\n\nlet start = process.hrtime.bigint();\n");
    push_str(&mut s, js_code);
    push_str(
        &mut s,
        "\nlet jsTime = Number(process.hrtime.bigint() - start) / 1e9;\nconsole.log(\"JS_TIME=\" + jsTime.toFixed(6));\n\nif (fastOps) {\n  start = process.hrtime.bigint();\n  const result = ",
    );
    push_str(&mut s, native_call);
    push_str(
        &mut s,
        ";\n  let nativeTime = Number(process.hrtime.bigint() - start) / 1e9;\n  console.log(\"NATIVE_TIME=\" + nativeTime.toFixed(6));\n} else {\n  console.log(\"NATIVE_TIME=NA\");\n}\n",
    );
    s
}

/// The JavaScript and native timings that a live benchmark printed, as
/// text: the last `JS_TIME=` value and the last `NATIVE_TIME=` value that
/// is not `NA`.
pub fn live_timings(output: &str) -> (r: (Option<String>, Option<String>))
    ensures
        opt_view(r.0) == last_field(lines_of(output@), "JS_TIME="@, false),
        opt_view(r.1) == last_field(lines_of(output@), "NATIVE_TIME="@, true),
{
    let js = field_value(output, "JS_TIME=", false);
    let native = field_value(output, "NATIVE_TIME=", true);
    (js, native)
}

/// The JavaScript of one scaling step of size `n`.
pub open spec fn node_scaling_script(addon_path: Seq<char>, n: u64) -> Seq<char> {
    "\nlet fastOps = null;\ntry { fastOps = require('"@ + addon_path + "'); } catch (e) {}\n\nconst n = "@
        + decimal(n as nat)
        + ";\nconst data = Array.from({length: n}, (_, i) => i);\n\nlet start = process.hrtime.bigint();\nlet total = 0;\nfor (let i = 0; i < n; i++) { total += i * i; }\nlet jsTime = Number(process.hrtime.bigint() - start) / 1e9;\n\nlet singleTime = -1, parallelTime = -1;\nif (fastOps) {\n  start = process.hrtime.bigint();\n  fastOps.sumOfSquares(n);\n  singleTime = Number(process.hrtime.bigint() - start) / 1e9;\n\n  start = process.hrtime.bigint();\n  fastOps.batchSumOfSquares(data);\n  parallelTime = Number(process.hrtime.bigint() - start) / 1e9;\n}\n\nconsole.log(\"N=\" + n);\nconsole.log(\"JS=\" + jsTime.toFixed(6));\nconsole.log(\"SINGLE=\" + singleTime.toFixed(6));\nconsole.log(\"PARALLEL=\" + parallelTime.toFixed(6));\n"@
}

/// The script of one scaling step of size `n`.
pub fn scaling_step_script(addon_path: &str, n: u64) -> (s: String)
    ensures
        s@ == node_scaling_script(addon_path@, n),
{
    let mut s = String::new();
    push_str(&mut s, "\nlet fastOps = null;\ntry { fastOps = require('");
    push_str(&mut s, addon_path);
    push_str(&mut s, "'); } catch (e) {}\n\nconst n = ");
    push_decimal(&mut s, n);
    push_str(
        &mut s,
        ";\nconst data = Array.from({length: n}, (_, i) => i);\n\nlet start = process.hrtime.bigint();\nlet total = 0;\nfor (let i = 0; i < n; i++) { total += i * i; }\nlet jsTime = Number(process.hrtime.bigint() - start) / 1e9;\n\nlet singleTime = -1, parallelTime = -1;\nif (fastOps) {\n  start = process.hrtime.bigint();\n  fastOps.sumOfSquares(n);\n  singleTime = Number(process.hrtime.bigint() - start) / 1e9;\n\n  start = process.hrtime.bigint();\n  fastOps.batchSumOfSquares(data);\n  parallelTime = Number(process.hrtime.bigint() - start) / 1e9;\n}\n\nconsole.log(\"N=\" + n);\nconsole.log(\"JS=\" + jsTime.toFixed(6));\nconsole.log(\"SINGLE=\" + singleTime.toFixed(6));\nconsole.log(\"PARALLEL=\" + parallelTime.toFixed(6));\n",
    );
    s
}

/// The JavaScript, single-threaded and parallel timings of a scaling step,
/// as text: the values of the keys `JS`, `SINGLE`, `PARALLEL`.
pub fn scaling_timings(output: &str) -> (r: (Option<String>, Option<String>, Option<String>))
    ensures
        opt_view(r.0) == last_field(lines_of(output@), "JS="@, false),
        opt_view(r.1) == last_field(lines_of(output@), "SINGLE="@, false),
        opt_view(r.2) == last_field(lines_of(output@), "PARALLEL="@, false),
{
    proof {
        reveal_strlit("JS");
        reveal_strlit("SINGLE");
        reveal_strlit("PARALLEL");
        reveal_strlit("JS=");
        reveal_strlit("SINGLE=");
        reveal_strlit("PARALLEL=");
    }
    let js = key_value(output, "JS");
    let single = key_value(output, "SINGLE");
    let par = key_value(output, "PARALLEL");
    assert("JS"@.push('=') =~= "JS="@);
    assert("SINGLE"@.push('=') =~= "SINGLE="@);
    assert("PARALLEL"@.push('=') =~= "PARALLEL="@);
    (js, single, par)
}

} // verus!
