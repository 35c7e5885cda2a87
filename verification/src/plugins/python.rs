//! Decisions of the Python plugin: the script under study, which profiled
//! functions are user code, and what the hotspot table shows and advises.

use vstd::prelude::*;
use vstd::string::StringSliceAdditionalSpecFns;
use vstd::utf8::is_char_boundary;
use crate::text::chars_of;
use crate::text::same_text;
use crate::text::shorten;
use crate::text::shortened;
use crate::text::string_views;

verus! {

/// The script a Python command runs: its second word, or nothing.
pub open spec fn script_of(cmd: Seq<Seq<char>>) -> Seq<char> {
    if cmd.len() > 1 {
        cmd[1]
    } else {
        seq![]
    }
}

/// The script a Python command runs.
pub fn target_script(cmd: &[String]) -> (s: String)
    ensures
        s@ == script_of(string_views(cmd@)),
{
    if cmd.len() > 1 {
        cmd[1].clone()
    } else {
        String::new()
    }
}

/// A profiled function belongs to the user's script: its file has the
/// script's name and it is not a synthetic frame such as `<module>`.
pub open spec fn is_user_hotspot(target_name: Seq<char>, file_name: Seq<char>, function: Seq<char>) -> bool {
    &&& target_name.len() > 0
    &&& file_name == target_name
    &&& !(function.len() > 0 && function[0] == '<')
}

/// The indices `k < n` of the user's hotspots, ascending.
pub open spec fn user_hotspots(target_name: Seq<char>, files: Seq<Seq<char>>, functions: Seq<Seq<char>>, n: nat) -> Seq<usize>
    decreases n,
{
    if n == 0 {
        seq![]
    } else {
        let rest = user_hotspots(target_name, files, functions, (n - 1) as nat);
        if is_user_hotspot(target_name, files[n - 1], functions[n - 1]) {
            rest.push((n - 1) as usize)
        } else {
            rest
        }
    }
}

/// The hotspots that belong to the user's script, by index: those whose
/// file name is the script's and whose function is not synthetic. With no
/// script name, none.
pub fn user_code_hotspots(target_name: &str, file_names: &[String], functions: &[String]) -> (v: Vec<usize>)
    requires
        file_names@.len() == functions@.len(),
    ensures
        v@ == user_hotspots(target_name@, string_views(file_names@), string_views(functions@), file_names@.len() as nat),
{
    let mut v: Vec<usize> = Vec::new();
    let target = chars_of(target_name);
    let mut i: usize = 0;
    while i < file_names.len()
        invariant
            0 <= i <= file_names@.len(),
            file_names@.len() == functions@.len(),
            target@ == target_name@,
            v@ == user_hotspots(target_name@, string_views(file_names@), string_views(functions@), i as nat),
        decreases file_names@.len() - i,
    {
        let f = chars_of(functions[i].as_str());
        let synthetic = f.len() > 0 && f[0] == '<';
        if target.len() > 0 && same_text(file_names[i].as_str(), target_name) && !synthetic {
            v.push(i);
        }
        i += 1;
    }
    v
}

/// A hot function's name as the hotspot table shows it: names longer than
/// 28 bytes keep 25 bytes and get `...`.
pub fn short_function_name(function: &str) -> (s: String)
    requires
        function.spec_bytes().len() <= usize::MAX,
        function.spec_bytes().len() <= 28 || is_char_boundary(function.spec_bytes(), 25),
    ensures
        s@ == shortened(function.spec_bytes(), function@, 28, 25),
{
    shorten(function, 28, 25)
}

/// Advice for one of the top Python hotspots.
#[derive(Debug, Clone, Copy, PartialEq, Eq, Structural)]
pub enum HotspotAdvice {
    /// More than a quarter of the runtime: top candidate for offloading.
    OffloadCandidate,
    /// Called more than 10 000 times: cache or vectorise.
    CacheOrVectorize,
    /// More than 10 ms per call: look for blocking calls.
    CheckBlockingCalls,
}

/// The advice for a hotspot, given whether it takes more than a quarter of
/// the runtime, its call count, and whether a call costs more than 10 ms;
/// the first that applies wins.
pub open spec fn advice_for(share_above_quarter: bool, calls: u64, per_call_above_10ms: bool) -> Option<HotspotAdvice> {
    if share_above_quarter {
        Some(HotspotAdvice::OffloadCandidate)
    } else if calls > 10_000 {
        Some(HotspotAdvice::CacheOrVectorize)
    } else if per_call_above_10ms {
        Some(HotspotAdvice::CheckBlockingCalls)
    } else {
        None
    }
}

/// The advice for a hotspot (see [`advice_for`]).
pub fn hotspot_advice(share_above_quarter: bool, calls: u64, per_call_above_10ms: bool) -> (a: Option<HotspotAdvice>)
    ensures
        a == advice_for(share_above_quarter, calls, per_call_above_10ms),
{
    if share_above_quarter {
        Some(HotspotAdvice::OffloadCandidate)
    } else if calls > 10_000 {
        Some(HotspotAdvice::CacheOrVectorize)
    } else if per_call_above_10ms {
        Some(HotspotAdvice::CheckBlockingCalls)
    } else {
        None
    }
}

/// The advice follows the hotspot's weight first: a hotspot above a quarter
/// of the runtime is an offload candidate whatever else holds; otherwise
/// more than 10 000 calls mean caching or vectorising, whatever the cost of
/// a call; otherwise a costly call means checking for blocking calls; and a
/// light, rarely called, cheap hotspot gets no advice.
pub proof fn lemma_advice_priorities(share_above_quarter: bool, calls: u64, per_call_above_10ms: bool)
    ensures
        share_above_quarter ==> advice_for(share_above_quarter, calls, per_call_above_10ms) == Some(
            HotspotAdvice::OffloadCandidate,
        ),
        !share_above_quarter && calls > 10_000 ==> advice_for(share_above_quarter, calls, per_call_above_10ms)
            == Some(HotspotAdvice::CacheOrVectorize),
        !share_above_quarter && calls > 10_000 ==> advice_for(share_above_quarter, calls, true)
            == advice_for(share_above_quarter, calls, false),
        !share_above_quarter && calls <= 10_000 && per_call_above_10ms ==> advice_for(
            share_above_quarter,
            calls,
            per_call_above_10ms,
        ) == Some(HotspotAdvice::CheckBlockingCalls),
        advice_for(share_above_quarter, calls, per_call_above_10ms) is None <==> (!share_above_quarter
            && calls <= 10_000 && !per_call_above_10ms),
        advice_for(share_above_quarter, calls, per_call_above_10ms) == Some(HotspotAdvice::CacheOrVectorize)
            <==> (!share_above_quarter && calls > 10_000),
{
}

} // verus!
