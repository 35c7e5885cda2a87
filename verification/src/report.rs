//! The rules of the profiling report: peak memory and suggestions.

use vstd::prelude::*;

verus! {

/// The largest number of `s`, or 0 for an empty sequence.
pub open spec fn max_or_zero(s: Seq<u64>) -> u64
    decreases s.len(),
{
    if s.len() == 0 {
        0
    } else {
        let m = max_or_zero(s.drop_last());
        if s.last() > m {
            s.last()
        } else {
            m
        }
    }
}

proof fn lemma_max_or_zero(s: Seq<u64>)
    ensures
        forall|k: int| 0 <= k < s.len() ==> s[k] <= max_or_zero(s),
        s.len() > 0 ==> s.contains(max_or_zero(s)),
    decreases s.len(),
{
    if s.len() > 0 {
        lemma_max_or_zero(s.drop_last());
        assert forall|k: int| 0 <= k < s.len() implies s[k] <= max_or_zero(s) by {
            if k < s.len() - 1 {
                assert(s[k] == s.drop_last()[k]);
            }
        }
        if s.last() > max_or_zero(s.drop_last()) || s.len() == 1 {
            if s.len() == 1 {
                assert(max_or_zero(s.drop_last()) == 0);
            }
            assert(s[s.len() - 1] == s.last());
        } else {
            let k = choose|k: int| 0 <= k < s.drop_last().len() && s.drop_last()[k] == max_or_zero(s.drop_last());
            assert(s[k] == s.drop_last()[k]);
        }
    }
}

/// The peak memory of the samples in bytes: the largest sample, or 0 when
/// there are none.
pub fn peak_memory_bytes(memory_bytes: &[u64]) -> (peak: u64)
    ensures
        peak == max_or_zero(memory_bytes@),
        forall|k: int| 0 <= k < memory_bytes@.len() ==> memory_bytes@[k] <= peak,
        memory_bytes@.len() > 0 ==> memory_bytes@.contains(peak),
{
    let mut peak: u64 = 0;
    let mut i: usize = 0;
    while i < memory_bytes.len()
        invariant
            0 <= i <= memory_bytes@.len(),
            peak == max_or_zero(memory_bytes@.take(i as int)),
        decreases memory_bytes@.len() - i,
    {
        assert(memory_bytes@.take(i + 1).drop_last() =~= memory_bytes@.take(i as int));
        if memory_bytes[i] > peak {
            peak = memory_bytes[i];
        }
        i += 1;
    }
    assert(memory_bytes@.take(memory_bytes@.len() as int) =~= memory_bytes@);
    proof {
        lemma_max_or_zero(memory_bytes@);
    }
    peak
}

/// A suggestion of the report.
#[derive(Debug, Clone, Copy, PartialEq, Eq, Structural)]
pub enum Suggestion {
    /// Average CPU above 80 %: parallelise or offload heavy loops.
    HighCpu,
    /// Peak memory above 500 MB: look for leaks and large structures.
    HighMemory,
    /// More than five seconds: profile hot functions, cache results.
    SlowExecution,
    /// Average CPU below 80 % and more than three seconds: likely I/O bound.
    IoBound,
}

/// The suggestions for a run, in report order. The CPU and memory
/// comparisons are given as outcomes: `cpu_above_80` and `cpu_below_80`
/// for the average CPU against 80 %, `memory_above_500` for the peak
/// memory against 500 MB.
pub open spec fn suggestions_for(
    cpu_above_80: bool,
    memory_above_500: bool,
    total_time_ms: u128,
    cpu_below_80: bool,
) -> Seq<Suggestion> {
    (if cpu_above_80 { seq![Suggestion::HighCpu] } else { seq![] })
        + (if memory_above_500 { seq![Suggestion::HighMemory] } else { seq![] })
        + (if total_time_ms > 5000 { seq![Suggestion::SlowExecution] } else { seq![] })
        + (if cpu_below_80 && total_time_ms > 3000 { seq![Suggestion::IoBound] } else { seq![] })
}

/// The suggestions for a run, in report order (see [`suggestions_for`]).
pub fn suggestions(
    cpu_above_80: bool,
    memory_above_500: bool,
    total_time_ms: u128,
    cpu_below_80: bool,
) -> (v: Vec<Suggestion>)
    ensures
        v@ == suggestions_for(cpu_above_80, memory_above_500, total_time_ms, cpu_below_80),
{
    let mut v: Vec<Suggestion> = Vec::new();
    if cpu_above_80 {
        v.push(Suggestion::HighCpu);
    }
    if memory_above_500 {
        v.push(Suggestion::HighMemory);
    }
    if total_time_ms > 5000 {
        v.push(Suggestion::SlowExecution);
    }
    if cpu_below_80 && total_time_ms > 3000 {
        v.push(Suggestion::IoBound);
    }
    assert(v@ =~= suggestions_for(cpu_above_80, memory_above_500, total_time_ms, cpu_below_80));
    v
}

/// The text the report prints for a suggestion.
pub open spec fn suggestion_message(s: Suggestion) -> Seq<char> {
    match s {
        Suggestion::HighCpu => " - High CPU usage detected. Consider parallelization or offloading heavy loops to Rust (FFI)."@,
        Suggestion::HighMemory => " - High memory usage. Check for memory leaks or large in-memory data structures."@,
        Suggestion::SlowExecution => " - Execution is slow (>5s). Profile hot functions and consider caching repeated computations."@,
        Suggestion::IoBound => " - Low CPU but slow execution → likely I/O bound (DB/network). Consider async or connection pooling."@,
    }
}

impl Suggestion {
    /// The text the report prints for this suggestion.
    pub fn message(&self) -> (m: &'static str)
        ensures
            m@ == suggestion_message(*self),
    {
        match self {
            Suggestion::HighCpu => " - High CPU usage detected. Consider parallelization or offloading heavy loops to Rust (FFI).",
            Suggestion::HighMemory => " - High memory usage. Check for memory leaks or large in-memory data structures.",
            Suggestion::SlowExecution => " - Execution is slow (>5s). Profile hot functions and consider caching repeated computations.",
            Suggestion::IoBound => " - Low CPU but slow execution → likely I/O bound (DB/network). Consider async or connection pooling.",
        }
    }
}

/// Each suggestion appears exactly when its own condition holds, whatever
/// the other measurements are: high CPU when the CPU is above 80 %, high
/// memory when memory is above 500 MB, slow execution after more than five
/// seconds, I/O bound when the CPU is below 80 % and the run took more than
/// three seconds. No suggestion appears twice, and they come in this order.
pub proof fn lemma_suggestions_follow_their_conditions(
    cpu_above_80: bool,
    memory_above_500: bool,
    total_time_ms: u128,
    cpu_below_80: bool,
)
    ensures
        suggestions_for(cpu_above_80, memory_above_500, total_time_ms, cpu_below_80).contains(
            Suggestion::HighCpu,
        ) <==> cpu_above_80,
        suggestions_for(cpu_above_80, memory_above_500, total_time_ms, cpu_below_80).contains(
            Suggestion::HighMemory,
        ) <==> memory_above_500,
        suggestions_for(cpu_above_80, memory_above_500, total_time_ms, cpu_below_80).contains(
            Suggestion::SlowExecution,
        ) <==> total_time_ms > 5000,
        suggestions_for(cpu_above_80, memory_above_500, total_time_ms, cpu_below_80).contains(
            Suggestion::IoBound,
        ) <==> (cpu_below_80 && total_time_ms > 3000),
        suggestions_for(cpu_above_80, memory_above_500, total_time_ms, cpu_below_80).no_duplicates(),
        forall|i: int, j: int|
            0 <= i < j < suggestions_for(cpu_above_80, memory_above_500, total_time_ms, cpu_below_80).len()
                ==> suggestion_position(
                suggestions_for(cpu_above_80, memory_above_500, total_time_ms, cpu_below_80)[i],
            ) < suggestion_position(
                suggestions_for(cpu_above_80, memory_above_500, total_time_ms, cpu_below_80)[j],
            ),
{
    let a = if cpu_above_80 { seq![Suggestion::HighCpu] } else { seq![] };
    let b = if memory_above_500 { seq![Suggestion::HighMemory] } else { seq![] };
    let c = if total_time_ms > 5000 { seq![Suggestion::SlowExecution] } else { seq![] };
    let d = if cpu_below_80 && total_time_ms > 3000 { seq![Suggestion::IoBound] } else { seq![] };
    let s = suggestions_for(cpu_above_80, memory_above_500, total_time_ms, cpu_below_80);
    assert(s == a + b + c + d);
    assert forall|x: Suggestion| s.contains(x) <==> (a.contains(x) || b.contains(x) || c.contains(x)
        || d.contains(x)) by {
        if s.contains(x) {
            let k = choose|k: int| 0 <= k < s.len() && s[k] == x;
            if k < a.len() {
                assert(a[k] == x);
            } else if k < a.len() + b.len() {
                assert(b[k - a.len()] == x);
            } else if k < a.len() + b.len() + c.len() {
                assert(c[k - a.len() - b.len()] == x);
            } else {
                assert(d[k - a.len() - b.len() - c.len()] == x);
            }
        }
        if a.contains(x) {
            assert(s[0] == x);
        }
        if b.contains(x) {
            assert(s[a.len() as int] == x);
        }
        if c.contains(x) {
            assert(s[(a.len() + b.len()) as int] == x);
        }
        if d.contains(x) {
            assert(s[(a.len() + b.len() + c.len()) as int] == x);
        }
    }
    assert forall|x: Suggestion| a.contains(x) implies x == Suggestion::HighCpu by {
        let k = choose|k: int| 0 <= k < a.len() && a[k] == x;
    }
    assert forall|x: Suggestion| b.contains(x) implies x == Suggestion::HighMemory by {
        let k = choose|k: int| 0 <= k < b.len() && b[k] == x;
    }
    assert forall|x: Suggestion| c.contains(x) implies x == Suggestion::SlowExecution by {
        let k = choose|k: int| 0 <= k < c.len() && c[k] == x;
    }
    assert forall|x: Suggestion| d.contains(x) implies x == Suggestion::IoBound by {
        let k = choose|k: int| 0 <= k < d.len() && d[k] == x;
    }
    if cpu_above_80 {
        assert(a[0] == Suggestion::HighCpu);
    }
    if memory_above_500 {
        assert(b[0] == Suggestion::HighMemory);
    }
    if total_time_ms > 5000 {
        assert(c[0] == Suggestion::SlowExecution);
    }
    if cpu_below_80 && total_time_ms > 3000 {
        assert(d[0] == Suggestion::IoBound);
    }
    assert forall|k: int| 0 <= k < s.len() implies suggestion_position(#[trigger] s[k]) == (if k < a.len() {
        0int
    } else if k < a.len() + b.len() {
        1int
    } else if k < a.len() + b.len() + c.len() {
        2int
    } else {
        3int
    }) by {
        if k < a.len() {
            assert(s[k] == a[k]);
        } else if k < a.len() + b.len() {
            assert(s[k] == b[k - a.len()]);
        } else if k < a.len() + b.len() + c.len() {
            assert(s[k] == c[k - a.len() - b.len()]);
        } else {
            assert(s[k] == d[k - a.len() - b.len() - c.len()]);
        }
    }
}

/// The place of a suggestion in the report.
pub open spec fn suggestion_position(s: Suggestion) -> int {
    match s {
        Suggestion::HighCpu => 0,
        Suggestion::HighMemory => 1,
        Suggestion::SlowExecution => 2,
        Suggestion::IoBound => 3,
    }
}

} // verus!
