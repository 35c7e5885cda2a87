//! Source-level pattern detection for Node.js hotspots: the pattern table,
//! the context window around a hot line, regex matching, the category order
//! of the report, and the conversion of V8 `file://` URLs into paths.

use vstd::prelude::*;
use vstd::utf8::valid_utf8;
use vstd::utf8::decode_utf8;
use vstd::string::StringSliceAdditionalSpecFns;
use crate::regex_engine::CompiledRegex;
use crate::regex_engine::regex_compiles;
use crate::regex_engine::regex_matches;
use crate::text::chars_of;
use crate::text::lines_of;
use crate::text::join_lines;
use crate::text::views;
use crate::text::split_lines;
use crate::text::join_range;
use crate::text::string_from_chars;
use crate::text::same_text;

verus! {

/// A known slow Node.js pattern and the native function that replaces it.
#[derive(Clone, Copy)]
pub struct NodePattern {
    pub name: &'static str,
    pub description: &'static str,
    pub rust_fn: &'static str,
    pub category: &'static str,
    pub regex: &'static str,
}

/// The texts of a [`NodePattern`].
pub struct NodePatternView {
    pub name: Seq<char>,
    pub description: Seq<char>,
    pub rust_fn: Seq<char>,
    pub category: Seq<char>,
    pub regex: Seq<char>,
}

impl View for NodePattern {
    type V = NodePatternView;

    open spec fn view(&self) -> NodePatternView {
        NodePatternView {
            name: self.name@,
            description: self.description@,
            rust_fn: self.rust_fn@,
            category: self.category@,
            regex: self.regex@,
        }
    }
}

/// A pattern found near a hotspot.
#[derive(Debug, Clone)]
pub struct PatternMatch {
    pub name: String,
    pub description: String,
    pub rust_fn: String,
    pub category: String,
}

/// The texts of a [`PatternMatch`].
pub struct PatternMatchView {
    pub name: Seq<char>,
    pub description: Seq<char>,
    pub rust_fn: Seq<char>,
    pub category: Seq<char>,
}

impl View for PatternMatch {
    type V = PatternMatchView;

    open spec fn view(&self) -> PatternMatchView {
        PatternMatchView {
            name: self.name@,
            description: self.description@,
            rust_fn: self.rust_fn@,
            category: self.category@,
        }
    }
}

/// What is reported of a pattern when it matches.
pub open spec fn report_of(d: NodePatternView) -> PatternMatchView {
    PatternMatchView {
        name: d.name,
        description: d.description,
        rust_fn: d.rust_fn,
        category: d.category,
    }
}

/// The table of known Node.js patterns, in the order in which they are tried.
pub open spec fn pattern_table() -> Seq<NodePatternView> {
    seq![
        NodePatternView {
            name: "sum_of_squares_loop"@,
            description: "'total += i*i' style accumulation loop detected"@,
            rust_fn: "sumOfSquares"@,
            category: "numeric_loop"@,
            regex: r"for\s*\([^)]*\)\s*\{[^}]*?(\w+)\s*\+=\s*\w+\s*\*\s*\w+"@,
        },
        NodePatternView {
            name: "range_sum_loop"@,
            description: "simple accumulation loop (total += i) detected"@,
            rust_fn: "fastRangeSum"@,
            category: "numeric_loop"@,
            regex: r"for\s*\([^)]*\)\s*\{[^}]*?(\w+)\s*\+=\s*\w+\s*;"@,
        },
        NodePatternView {
            name: "nested_loop_matrix"@,
            description: "Nested for-loops detected — O(n^2)+ candidate"@,
            rust_fn: "matrixMultiply"@,
            category: "nested_loop"@,
            regex: r"for\s*\([^)]*\)\s*\{[^{}]*for\s*\([^)]*\)\s*\{"@,
        },
        NodePatternView {
            name: "string_concat_loop"@,
            description: "String += concatenation in loop (slow in hot path)"@,
            rust_fn: "fastStringJoin"@,
            category: "string_ops"@,
            regex: r#"for\s*\([^)]*\)\s*\{[^}]*?\w+\s*\+=\s*(`|'|"|\w+\.toString)"#@,
        },
        NodePatternView {
            name: "array_push_loop"@,
            description: "array.push() inside loop detected"@,
            rust_fn: "fastCollect"@,
            category: "collection_ops"@,
            regex: r"for\s*\([^)]*\)\s*\{[^}]*?\.push\("@,
        },
        NodePatternView {
            name: "object_counting_loop"@,
            description: "Object property counting pattern (frequency map) detected"@,
            rust_fn: "fastWordCount"@,
            category: "collection_ops"@,
            regex: r"\w+\[\w+\]\s*=\s*\(\w+\[\w+\]\s*\|\|\s*0\)\s*\+\s*1"@,
        },
    ]
}

/// The views of a vector of patterns.
pub open spec fn pattern_views(v: Seq<NodePattern>) -> Seq<NodePatternView> {
    v.map_values(|p: NodePattern| p@)
}

/// The known Node.js patterns, in table order.
pub fn pattern_defs() -> (v: Vec<NodePattern>)
    ensures
        pattern_views(v@) == pattern_table(),
{
    let mut v: Vec<NodePattern> = Vec::new();
    v.push(NodePattern {
        name: "sum_of_squares_loop",
        description: "'total += i*i' style accumulation loop detected",
        rust_fn: "sumOfSquares",
        category: "numeric_loop",
        regex: r"for\s*\([^)]*\)\s*\{[^}]*?(\w+)\s*\+=\s*\w+\s*\*\s*\w+",
    });
    v.push(NodePattern {
        name: "range_sum_loop",
        description: "simple accumulation loop (total += i) detected",
        rust_fn: "fastRangeSum",
        category: "numeric_loop",
        regex: r"for\s*\([^)]*\)\s*\{[^}]*?(\w+)\s*\+=\s*\w+\s*;",
    });
    v.push(NodePattern {
        name: "nested_loop_matrix",
        description: "Nested for-loops detected — O(n^2)+ candidate",
        rust_fn: "matrixMultiply",
        category: "nested_loop",
        regex: r"for\s*\([^)]*\)\s*\{[^{}]*for\s*\([^)]*\)\s*\{",
    });
    v.push(NodePattern {
        name: "string_concat_loop",
        description: "String += concatenation in loop (slow in hot path)",
        rust_fn: "fastStringJoin",
        category: "string_ops",
        regex: r#"for\s*\([^)]*\)\s*\{[^}]*?\w+\s*\+=\s*(`|'|"|\w+\.toString)"#,
    });
    v.push(NodePattern {
        name: "array_push_loop",
        description: "array.push() inside loop detected",
        rust_fn: "fastCollect",
        category: "collection_ops",
        regex: r"for\s*\([^)]*\)\s*\{[^}]*?\.push\(",
    });
    v.push(NodePattern {
        name: "object_counting_loop",
        description: "Object property counting pattern (frequency map) detected",
        rust_fn: "fastWordCount",
        category: "collection_ops",
        regex: r"\w+\[\w+\]\s*=\s*\(\w+\[\w+\]\s*\|\|\s*0\)\s*\+\s*1",
    });
    assert(pattern_views(v@) =~= pattern_table());
    v
}


/// A known pattern together with its compiled regular expression.
pub struct CompiledPattern {
    pub def: NodePattern,
    pub regex: CompiledRegex,
}

/// The patterns of `ds` whose regular expression compiles, in order.
pub open spec fn compilable(ds: Seq<NodePatternView>) -> Seq<NodePatternView>
    decreases ds.len(),
{
    if ds.len() == 0 {
        seq![]
    } else {
        let rest = compilable(ds.drop_last());
        if regex_compiles(ds.last().regex) {
            rest.push(ds.last())
        } else {
            rest
        }
    }
}

/// The pattern views of compiled patterns.
pub open spec fn compiled_views(v: Seq<CompiledPattern>) -> Seq<NodePatternView> {
    v.map_values(|p: CompiledPattern| p.def@)
}

/// Each compiled pattern holds the expression compiled from its own regex.
pub open spec fn compiled_faithfully(v: Seq<CompiledPattern>) -> bool {
    forall|k: int| 0 <= k < v.len() ==> (#[trigger] v[k]).regex@ == v[k].def.regex@
}

/// The pattern table with each regex compiled; patterns whose regex the
/// regex crate refuses are left out.
pub fn compiled_patterns() -> (v: Vec<CompiledPattern>)
    ensures
        compiled_views(v@) == compilable(pattern_table()),
        compiled_faithfully(v@),
{
    let defs = pattern_defs();
    let mut out: Vec<CompiledPattern> = Vec::new();
    let mut i: usize = 0;
    while i < defs.len()
        invariant
            0 <= i <= defs@.len(),
            pattern_views(defs@) == pattern_table(),
            compiled_views(out@) == compilable(pattern_views(defs@).take(i as int)),
            compiled_faithfully(out@),
        decreases defs@.len() - i,
    {
        let d = defs[i];
        let ghost before = out@;
        assert(pattern_views(defs@).take(i + 1).drop_last() =~= pattern_views(defs@).take(i as int));
        assert(pattern_views(defs@).take(i + 1).last() == d@);
        match CompiledRegex::new(d.regex) {
            Some(re) => {
                out.push(CompiledPattern { def: d, regex: re });
                assert(compiled_views(out@) =~= compiled_views(before).push(d@));
            },
            None => {},
        }
        i += 1;
    }
    assert(pattern_views(defs@).take(defs@.len() as int) =~= pattern_views(defs@));
    out
}

/// What the patterns of `ps` report when matched against `context`, in
/// pattern order.
pub open spec fn matches_in(ps: Seq<CompiledPattern>, context: Seq<char>) -> Seq<PatternMatchView>
    decreases ps.len(),
{
    if ps.len() == 0 {
        seq![]
    } else {
        let rest = matches_in(ps.drop_last(), context);
        if regex_matches(ps.last().regex@, context) {
            rest.push(report_of(ps.last().def@))
        } else {
            rest
        }
    }
}

/// The position of a category in the report: nested loops first, then
/// numeric loops, then string operations, then everything else.
pub open spec fn category_rank(category: Seq<char>) -> nat {
    if category == "nested_loop"@ {
        0
    } else if category == "numeric_loop"@ {
        1
    } else if category == "string_ops"@ {
        2
    } else {
        3
    }
}

/// The matches of `ms` whose category has rank `r`, in their order.
pub open spec fn with_rank(ms: Seq<PatternMatchView>, r: nat) -> Seq<PatternMatchView>
    decreases ms.len(),
{
    if ms.len() == 0 {
        seq![]
    } else {
        let rest = with_rank(ms.drop_last(), r);
        if category_rank(ms.last().category) == r {
            rest.push(ms.last())
        } else {
            rest
        }
    }
}

/// The matches of ranks below `r`, rank by rank.
pub open spec fn ranks_below(ms: Seq<PatternMatchView>, r: nat) -> Seq<PatternMatchView>
    decreases r,
{
    if r == 0 {
        seq![]
    } else {
        ranks_below(ms, (r - 1) as nat) + with_rank(ms, (r - 1) as nat)
    }
}

/// The matches ordered by category rank, keeping the order of matches of
/// the same rank.
pub open spec fn by_category(ms: Seq<PatternMatchView>) -> Seq<PatternMatchView> {
    ranks_below(ms, 4)
}

/// The views of a vector of matches.
pub open spec fn match_views(v: Seq<PatternMatch>) -> Seq<PatternMatchView> {
    v.map_values(|m: PatternMatch| m@)
}

/// The report entry of a pattern.
pub fn report_entry(d: &NodePattern) -> (m: PatternMatch)
    ensures
        m@ == report_of(d@),
{
    PatternMatch {
        name: String::from_str(d.name),
        description: String::from_str(d.description),
        rust_fn: String::from_str(d.rust_fn),
        category: String::from_str(d.category),
    }
}

/// The rank of a category.
pub fn rank_of(category: &str) -> (r: u8)
    ensures
        r as nat == category_rank(category@),
{
    if same_text(category, "nested_loop") {
        0
    } else if same_text(category, "numeric_loop") {
        1
    } else if same_text(category, "string_ops") {
        2
    } else {
        3
    }
}

impl PatternMatch {
    /// A copy of this match.
    pub fn duplicate(&self) -> (m: PatternMatch)
        ensures
            m@ == self@,
    {
        PatternMatch {
            name: self.name.clone(),
            description: self.description.clone(),
            rust_fn: self.rust_fn.clone(),
            category: self.category.clone(),
        }
    }
}

/// Orders matches by category rank, keeping the order of matches of the
/// same rank.
pub fn order_by_category(found: &Vec<PatternMatch>) -> (v: Vec<PatternMatch>)
    ensures
        match_views(v@) == by_category(match_views(found@)),
{
    let ghost fv = match_views(found@);
    let mut ranks: Vec<u8> = Vec::new();
    let mut i: usize = 0;
    while i < found.len()
        invariant
            0 <= i <= found@.len(),
            fv == match_views(found@),
            ranks@.len() == i,
            forall|k: int| 0 <= k < i ==> #[trigger] ranks@[k] as nat == category_rank(fv[k].category),
        decreases found@.len() - i,
    {
        ranks.push(rank_of(found[i].category.as_str()));
        i += 1;
    }
    let mut out: Vec<PatternMatch> = Vec::new();
    let mut r: u8 = 0;
    while r < 4
        invariant
            0 <= r <= 4,
            fv == match_views(found@),
            ranks@.len() == fv.len(),
            forall|k: int| 0 <= k < fv.len() ==> #[trigger] ranks@[k] as nat == category_rank(fv[k].category),
            match_views(out@) == ranks_below(fv, r as nat),
        decreases 4 - r,
    {
        let mut k: usize = 0;
        while k < found.len()
            invariant
                0 <= r < 4,
                0 <= k <= fv.len(),
                fv == match_views(found@),
                ranks@.len() == fv.len(),
                forall|q: int| 0 <= q < fv.len() ==> #[trigger] ranks@[q] as nat == category_rank(fv[q].category),
                match_views(out@) == ranks_below(fv, r as nat) + with_rank(fv.take(k as int), r as nat),
            decreases fv.len() - k,
        {
            let ghost before = match_views(out@);
            assert(fv.take(k + 1).drop_last() =~= fv.take(k as int));
            assert(fv.take(k + 1).last() == fv[k as int]);
            if ranks[k] == r {
                let m = found[k].duplicate();
                out.push(m);
                assert(match_views(out@) =~= before.push(fv[k as int]));
            } else {
                assert(match_views(out@) =~= before);
            }
            k += 1;
        }
        assert(fv.take(fv.len() as int) =~= fv);
        assert(ranks_below(fv, (r + 1) as nat) == ranks_below(fv, r as nat) + with_rank(fv, r as nat));
        r += 1;
    }
    out
}

/// The patterns whose regular expression matches `context`, in pattern
/// order.
pub fn find_matches(patterns: &Vec<CompiledPattern>, context: &str) -> (v: Vec<PatternMatch>)
    ensures
        match_views(v@) == matches_in(patterns@, context@),
{
    let mut found: Vec<PatternMatch> = Vec::new();
    let mut i: usize = 0;
    while i < patterns.len()
        invariant
            0 <= i <= patterns@.len(),
            match_views(found@) == matches_in(patterns@.take(i as int), context@),
        decreases patterns@.len() - i,
    {
        assert(patterns@.take(i + 1).drop_last() =~= patterns@.take(i as int));
        assert(patterns@.take(i + 1).last() == patterns@[i as int]);
        let ghost before = match_views(found@);
        if patterns[i].regex.is_match(context) {
            found.push(report_entry(&patterns[i].def));
            assert(match_views(found@) =~= before.push(report_of(patterns@[i as int].def@)));
        }
        i += 1;
    }
    assert(patterns@.take(patterns@.len() as int) =~= patterns@);
    found
}

/// Matches every pattern against `context` and reports the matching ones
/// ordered by category.
pub fn match_context(patterns: &Vec<CompiledPattern>, context: &str) -> (v: Vec<PatternMatch>)
    ensures
        match_views(v@) == by_category(matches_in(patterns@, context@)),
{
    let found = find_matches(patterns, context);
    order_by_category(&found)
}

/// First line of the context window around hot line `line`.
pub open spec fn window_start(line: u64) -> int {
    if line >= 5 {
        line - 5
    } else {
        0
    }
}

/// End (exclusive) of the context window, for a text of `n` lines.
pub open spec fn window_end(line: u64, n: nat) -> int {
    if line + 20 < n {
        line + 20
    } else {
        n as int
    }
}

/// The source text around hot line `line`: from five lines before it to
/// twenty lines after it, clipped to the text; `None` when that is empty.
pub open spec fn context_window(content: Seq<char>, line: u64) -> Option<Seq<char>> {
    let ls = lines_of(content);
    let s = window_start(line);
    let e = window_end(line, ls.len());
    if s >= e {
        None
    } else {
        Some(join_lines(ls.subrange(s, e)))
    }
}

/// The context window of `content` around `line`.
pub fn source_context(content: &str, line: u64) -> (r: Option<String>)
    requires
        line + 20 <= u64::MAX,
    ensures
        match r {
            Some(s) => context_window(content@, line) == Some(s@),
            None => context_window(content@, line) is None,
        },
{
    let chars = chars_of(content);
    let lines = split_lines(&chars);
    let n = lines.len() as u64;
    let start = line.saturating_sub(5);
    let end = if line + 20 < n { line + 20 } else { n };
    if start >= end {
        return None;
    }
    let joined = join_range(&lines, start as usize, end as usize);
    Some(string_from_chars(&joined))
}

/// What pattern detection reports for the source text `content` around
/// hot line `line`.
pub open spec fn patterns_in_source(ps: Seq<CompiledPattern>, content: Seq<char>, line: u64) -> Seq<PatternMatchView> {
    match context_window(content, line) {
        Some(context) => by_category(matches_in(ps, context)),
        None => seq![],
    }
}

/// Detects known patterns in the source text around hot line `line`.
pub fn detect_patterns_in_source(patterns: &Vec<CompiledPattern>, content: &str, line: u64) -> (v: Vec<PatternMatch>)
    requires
        line + 20 <= u64::MAX,
    ensures
        match_views(v@) == patterns_in_source(patterns@, content@, line),
{
    match source_context(content, line) {
        Some(context) => match_context(patterns, context.as_str()),
        None => {
            let v: Vec<PatternMatch> = Vec::new();
            assert(match_views(v@) =~= Seq::<PatternMatchView>::empty());
            v
        },
    }
}


// ---------------------------------------------------------------------------
// V8 inspector URLs
// ---------------------------------------------------------------------------

/// The Unicode text `String::from_utf8_lossy` makes of a byte sequence:
/// invalid sequences become U+FFFD.
pub uninterp spec fn lossy_utf8(bytes: Seq<u8>) -> Seq<char>;

/// Calls `String::from_utf8_lossy`. Claimed: the result is `lossy_utf8` of
/// the bytes, and, as the documentation says, valid UTF-8 is decoded as is.
#[verifier::external_body]
fn from_utf8_lossy(bytes: &[u8]) -> (s: String)
    ensures
        s@ == lossy_utf8(bytes@),
        valid_utf8(bytes@) ==> s@ == decode_utf8(bytes@),
{
    String::from_utf8_lossy(bytes).into_owned()
}

/// The value of an ASCII hexadecimal digit.
pub open spec fn hex_digit_value(b: u8) -> Option<u8> {
    if 48 <= b <= 57 {
        Some((b - 48) as u8)
    } else if 97 <= b <= 102 {
        Some((b - 87) as u8)
    } else if 65 <= b <= 70 {
        Some((b - 55) as u8)
    } else {
        None
    }
}

/// The byte that a two-byte text stands for when read in base 16 the way
/// `u8::from_str_radix` reads it: an optional `+` and then digits only.
pub open spec fn hex_pair_value(b1: u8, b2: u8) -> Option<u8> {
    if b1 == 43 {
        hex_digit_value(b2)
    } else {
        match (hex_digit_value(b1), hex_digit_value(b2)) {
            (Some(h), Some(l)) => Some((h * 16 + l) as u8),
            _ => None,
        }
    }
}

/// Whether the percent escape that starts at `i` is decoded.
pub open spec fn escape_at(b: Seq<u8>, i: int) -> bool {
    &&& 0 <= i
    &&& i + 2 < b.len()
    &&& b[i] == 37
    &&& hex_pair_value(b[i + 1], b[i + 2]) is Some
}

/// Percent-decoding of the bytes from position `i` on: each `%` followed
/// by two more bytes that read as a base-16 byte becomes that byte; every
/// other byte is kept.
pub open spec fn decode_from(b: Seq<u8>, i: int) -> Seq<u8>
    decreases b.len() - i,
{
    if i < 0 || i >= b.len() {
        seq![]
    } else if escape_at(b, i) {
        seq![hex_pair_value(b[i + 1], b[i + 2])->0] + decode_from(b, i + 3)
    } else {
        seq![b[i]] + decode_from(b, i + 1)
    }
}

/// Percent-decoding of a byte sequence.
pub open spec fn percent_decoded(b: Seq<u8>) -> Seq<u8> {
    decode_from(b, 0)
}

/// Whether the two bytes after every `%` that the decoder looks at (from
/// position `i` on) end on a character boundary of the text. Where they do
/// not, the text cannot be cut there and decoding fails.
pub open spec fn escapes_cut_cleanly(b: Seq<u8>, i: int) -> bool
    decreases b.len() - i,
{
    if i < 0 || i >= b.len() {
        true
    } else if b[i] == 37 && i + 2 < b.len() {
        &&& (i + 3 == b.len() || !vstd::utf8::is_continuation_byte(b[i + 3]))
        &&& if escape_at(b, i) {
            escapes_cut_cleanly(b, i + 3)
        } else {
            escapes_cut_cleanly(b, i + 1)
        }
    } else {
        escapes_cut_cleanly(b, i + 1)
    }
}

/// The value of a hexadecimal digit byte.
pub fn hex_digit(b: u8) -> (r: Option<u8>)
    ensures
        r == hex_digit_value(b),
{
    if 48 <= b && b <= 57 {
        Some(b - 48)
    } else if 97 <= b && b <= 102 {
        Some(b - 87)
    } else if 65 <= b && b <= 70 {
        Some(b - 55)
    } else {
        None
    }
}

/// The byte that two bytes read in base 16 stand for, if any.
pub fn hex_pair(b1: u8, b2: u8) -> (r: Option<u8>)
    ensures
        r == hex_pair_value(b1, b2),
{
    if b1 == 43 {
        return hex_digit(b2);
    }
    match (hex_digit(b1), hex_digit(b2)) {
        (Some(h), Some(l)) => Some(h * 16 + l),
        _ => None,
    }
}

/// Percent-decodes a byte sequence.
pub fn percent_decode_bytes(b: &[u8]) -> (r: Vec<u8>)
    ensures
        r@ == percent_decoded(b@),
{
    let n = b.len();
    let mut r: Vec<u8> = Vec::new();
    let mut i: usize = 0;
    while i < n
        invariant
            n == b@.len(),
            0 <= i <= n,
            r@ + decode_from(b@, i as int) == percent_decoded(b@),
        decreases n - i,
    {
        if b[i] == 37 && n - i > 2 {
            match hex_pair(b[i + 1], b[i + 2]) {
                Some(v) => {
                    assert(escape_at(b@, i as int));
                    assert(r@.push(v) + decode_from(b@, i + 3) =~= r@ + decode_from(b@, i as int));
                    r.push(v);
                    i += 3;
                    continue;
                },
                None => {},
            }
        }
        assert(!escape_at(b@, i as int));
        assert(r@.push(b@[i as int]) + decode_from(b@, i + 1) =~= r@ + decode_from(b@, i as int));
        r.push(b[i]);
        i += 1;
    }
    assert(r@ + decode_from(b@, n as int) =~= r@);
    r
}

/// Whether decoding `b` cuts every looked-at escape on a character boundary.
pub fn escapes_cut_cleanly_in(b: &[u8]) -> (ok: bool)
    ensures
        ok == escapes_cut_cleanly(b@, 0),
{
    let n = b.len();
    let mut i: usize = 0;
    while i < n
        invariant
            n == b@.len(),
            0 <= i <= n,
            escapes_cut_cleanly(b@, 0) == escapes_cut_cleanly(b@, i as int),
        decreases n - i,
    {
        if b[i] == 37 && n - i > 2 {
            if n - i > 3 && 0x80 <= b[i + 3] && b[i + 3] <= 0xbf {
                return false;
            }
            match hex_pair(b[i + 1], b[i + 2]) {
                Some(_) => {
                    i += 3;
                },
                None => {
                    i += 1;
                },
            }
        } else {
            i += 1;
        }
    }
    true
}

/// Percent-decodes a string and reads the bytes back as UTF-8, lossily.
pub fn percent_decode(s: &str) -> (r: String)
    requires
        escapes_cut_cleanly(s.spec_bytes(), 0),
    ensures
        r@ == lossy_utf8(percent_decoded(s.spec_bytes())),
        valid_utf8(percent_decoded(s.spec_bytes())) ==> r@ == decode_utf8(percent_decoded(s.spec_bytes())),
{
    let bytes = s.as_bytes();
    let decoded = percent_decode_bytes(bytes);
    from_utf8_lossy(decoded.as_slice())
}

/// The bytes `file:///`-style URLs start with.
pub open spec fn file_scheme() -> Seq<u8> {
    seq![102u8, 105u8, 108u8, 101u8, 58u8, 47u8, 47u8]
}

/// The path part of a URL's bytes: without a leading `file://`, and without
/// the slash before a Windows drive letter (`/F:/...`).
pub open spec fn url_path_bytes(b: Seq<u8>) -> Seq<u8> {
    let s = if b.len() >= 7 && b.subrange(0, 7) == file_scheme() {
        b.subrange(7, b.len() as int)
    } else {
        b
    };
    if s.len() > 2 && s[0] == 47 && s[2] == 58 {
        s.subrange(1, s.len() as int)
    } else {
        s
    }
}

/// The path bytes of a URL.
pub fn url_path(url: &str) -> (r: Vec<u8>)
    ensures
        r@ == url_path_bytes(url.spec_bytes()),
{
    let b = url.as_bytes();
    let n = b.len();
    let mut from: usize = 0;
    if n >= 7 && b[0] == 102 && b[1] == 105 && b[2] == 108 && b[3] == 101 && b[4] == 58
        && b[5] == 47 && b[6] == 47 {
        assert(b@.subrange(0, 7) =~= file_scheme());
        from = 7;
    } else {
        assert(!(b@.len() >= 7 && b@.subrange(0, 7) == file_scheme())) by {
            if b@.len() >= 7 && b@.subrange(0, 7) == file_scheme() {
                assert(b@.subrange(0, 7)[0] == b@[0]);
                assert(b@.subrange(0, 7)[1] == b@[1]);
                assert(b@.subrange(0, 7)[2] == b@[2]);
                assert(b@.subrange(0, 7)[3] == b@[3]);
                assert(b@.subrange(0, 7)[4] == b@[4]);
                assert(b@.subrange(0, 7)[5] == b@[5]);
                assert(b@.subrange(0, 7)[6] == b@[6]);
            }
        }
    }
    if n - from > 2 && b[from] == 47 && b[from + 2] == 58 {
        from = from + 1;
    }
    let mut r: Vec<u8> = Vec::new();
    let mut i = from;
    while i < n
        invariant
            n == b@.len(),
            from <= i <= n,
            r@ == b@.subrange(from as int, i as int),
        decreases n - i,
    {
        r.push(b[i]);
        assert(b@.subrange(from as int, i + 1) =~= b@.subrange(from as int, i as int).push(b@[i as int]));
        i += 1;
    }
    assert(r@ =~= url_path_bytes(b@));
    r
}

/// Whether `file_url_to_path` can decode `url` (see [`escapes_cut_cleanly`]).
pub fn file_url_decodable(url: &str) -> (ok: bool)
    ensures
        ok == escapes_cut_cleanly(url_path_bytes(url.spec_bytes()), 0),
{
    let p = url_path(url);
    escapes_cut_cleanly_in(p.as_slice())
}

/// Converts a V8 inspector `file://` URL into a native path: the scheme is
/// dropped, the slash before a Windows drive letter too, and percent
/// escapes are decoded.
pub fn file_url_to_path(url: &str) -> (r: String)
    requires
        escapes_cut_cleanly(url_path_bytes(url.spec_bytes()), 0),
    ensures
        r@ == lossy_utf8(percent_decoded(url_path_bytes(url.spec_bytes()))),
        valid_utf8(percent_decoded(url_path_bytes(url.spec_bytes()))) ==> r@ == decode_utf8(
            percent_decoded(url_path_bytes(url.spec_bytes())),
        ),
{
    let p = url_path(url);
    let decoded = percent_decode_bytes(p.as_slice());
    from_utf8_lossy(decoded.as_slice())
}


// ---------------------------------------------------------------------------
// Laws of the report order
// ---------------------------------------------------------------------------

proof fn lemma_with_rank_has_rank(ms: Seq<PatternMatchView>, r: nat)
    ensures
        forall|k: int| 0 <= k < with_rank(ms, r).len()
            ==> category_rank((#[trigger] with_rank(ms, r)[k]).category) == r,
    decreases ms.len(),
{
    if ms.len() > 0 {
        lemma_with_rank_has_rank(ms.drop_last(), r);
        let rest = with_rank(ms.drop_last(), r);
        if category_rank(ms.last().category) == r {
            assert forall|k: int| 0 <= k < with_rank(ms, r).len() implies category_rank(
                (#[trigger] with_rank(ms, r)[k]).category,
            ) == r by {
                if k < rest.len() {
                    assert(with_rank(ms, r)[k] == rest[k]);
                }
            }
        }
    }
}

proof fn lemma_with_rank_concat(a: Seq<PatternMatchView>, b: Seq<PatternMatchView>, r: nat)
    ensures
        with_rank(a + b, r) == with_rank(a, r) + with_rank(b, r),
    decreases b.len(),
{
    if b.len() == 0 {
        assert(a + b =~= a);
        assert(with_rank(a, r) + with_rank(b, r) =~= with_rank(a, r));
    } else {
        lemma_with_rank_concat(a, b.drop_last(), r);
        assert((a + b).drop_last() =~= a + b.drop_last());
        assert((a + b).last() == b.last());
        if category_rank(b.last().category) == r {
            assert(with_rank(a + b, r) =~= with_rank(a, r) + with_rank(b, r));
        } else {
            assert(with_rank(a + b, r) =~= with_rank(a, r) + with_rank(b, r));
        }
    }
}

proof fn lemma_with_rank_twice(ms: Seq<PatternMatchView>, q: nat, r: nat)
    ensures
        with_rank(with_rank(ms, q), r) == (if q == r { with_rank(ms, r) } else { seq![] }),
    decreases ms.len(),
{
    if ms.len() > 0 {
        lemma_with_rank_twice(ms.drop_last(), q, r);
        let w = with_rank(ms.drop_last(), q);
        if category_rank(ms.last().category) == q {
            assert(with_rank(ms, q) == w.push(ms.last()));
            assert(w.push(ms.last()).drop_last() =~= w);
        }
    }
}

proof fn lemma_ranks_split_multiset(ms: Seq<PatternMatchView>)
    ensures
        ms.to_multiset() == with_rank(ms, 0).to_multiset().add(with_rank(ms, 1).to_multiset()).add(
            with_rank(ms, 2).to_multiset(),
        ).add(with_rank(ms, 3).to_multiset()),
    decreases ms.len(),
{
    broadcast use vstd::seq_lib::group_to_multiset_ensures;
    broadcast use vstd::multiset::group_multiset_axioms;

    if ms.len() == 0 {
        assert(ms.to_multiset() =~= vstd::multiset::Multiset::empty());
        assert(with_rank(ms, 0).to_multiset() =~= vstd::multiset::Multiset::empty());
        assert(with_rank(ms, 1).to_multiset() =~= vstd::multiset::Multiset::empty());
        assert(with_rank(ms, 2).to_multiset() =~= vstd::multiset::Multiset::empty());
        assert(with_rank(ms, 3).to_multiset() =~= vstd::multiset::Multiset::empty());
    } else {
        let rest = ms.drop_last();
        let x = ms.last();
        lemma_ranks_split_multiset(rest);
        assert(ms =~= rest.push(x));
        assert(ms.to_multiset() =~= rest.to_multiset().insert(x));
        let q = category_rank(x.category);
        assert(q < 4);
        assert(ms.to_multiset() =~= with_rank(ms, 0).to_multiset().add(with_rank(ms, 1).to_multiset()).add(
            with_rank(ms, 2).to_multiset(),
        ).add(with_rank(ms, 3).to_multiset()));
    }
}

/// Ordering the matches by category is a stable sort by category rank: the
/// ranks never decrease along the report, the report holds exactly the
/// matches found, and matches of one rank keep the order of the pattern
/// table.
pub proof fn lemma_report_order_is_stable_sort(ms: Seq<PatternMatchView>)
    ensures
        forall|i: int, j: int|
            0 <= i < j < by_category(ms).len() ==> category_rank(by_category(ms)[i].category)
                <= category_rank(by_category(ms)[j].category),
        by_category(ms).to_multiset() == ms.to_multiset(),
        forall|r: nat| r < 4 ==> #[trigger] with_rank(by_category(ms), r) == with_rank(ms, r),
{
    broadcast use vstd::multiset::group_multiset_axioms;

    reveal_with_fuel(ranks_below, 5);
    let w0 = with_rank(ms, 0);
    let w1 = with_rank(ms, 1);
    let w2 = with_rank(ms, 2);
    let w3 = with_rank(ms, 3);
    let b = by_category(ms);
    assert(b =~= w0 + w1 + w2 + w3);
    lemma_with_rank_has_rank(ms, 0);
    lemma_with_rank_has_rank(ms, 1);
    lemma_with_rank_has_rank(ms, 2);
    lemma_with_rank_has_rank(ms, 3);
    let l0 = w0.len() as int;
    let l1 = l0 + w1.len();
    let l2 = l1 + w2.len();
    assert forall|k: int| 0 <= k < b.len() implies category_rank(b[k].category) == (if k < l0 {
        0int
    } else if k < l1 {
        1int
    } else if k < l2 {
        2int
    } else {
        3int
    }) by {
        if k < l0 {
            assert(b[k] == w0[k]);
        } else if k < l1 {
            assert(b[k] == w1[k - l0]);
        } else if k < l2 {
            assert(b[k] == w2[k - l1]);
        } else {
            assert(b[k] == w3[k - l2]);
        }
    }
    vstd::seq_lib::lemma_multiset_commutative(w0, w1);
    vstd::seq_lib::lemma_multiset_commutative(w0 + w1, w2);
    vstd::seq_lib::lemma_multiset_commutative(w0 + w1 + w2, w3);
    lemma_ranks_split_multiset(ms);
    assert forall|r: nat| r < 4 implies #[trigger] with_rank(by_category(ms), r) == with_rank(ms, r) by {
        lemma_with_rank_concat(w0 + w1 + w2, w3, r);
        lemma_with_rank_concat(w0 + w1, w2, r);
        lemma_with_rank_concat(w0, w1, r);
        lemma_with_rank_twice(ms, 0, r);
        lemma_with_rank_twice(ms, 1, r);
        lemma_with_rank_twice(ms, 2, r);
        lemma_with_rank_twice(ms, 3, r);
        if r == 0 {
            assert(with_rank(b, r) =~= w0);
        } else if r == 1 {
            assert(with_rank(b, r) =~= w1);
        } else if r == 2 {
            assert(with_rank(b, r) =~= w2);
        } else {
            assert(with_rank(b, r) =~= w3);
        }
    }
}


proof fn lemma_decode_from_plain(b: Seq<u8>, i: int)
    requires
        0 <= i <= b.len(),
        forall|k: int| 0 <= k < b.len() ==> b[k] != 37,
    ensures
        decode_from(b, i) == b.subrange(i, b.len() as int),
        escapes_cut_cleanly(b, i),
    decreases b.len() - i,
{
    if i < b.len() {
        lemma_decode_from_plain(b, i + 1);
        assert(decode_from(b, i) =~= b.subrange(i, b.len() as int));
    } else {
        assert(decode_from(b, i) =~= b.subrange(i, b.len() as int));
    }
}

/// Percent-decoding leaves bytes without a `%` unchanged, and decodes
/// them without failing.
pub proof fn lemma_percent_decode_without_escapes(b: Seq<u8>)
    requires
        forall|k: int| 0 <= k < b.len() ==> b[k] != 37,
    ensures
        percent_decoded(b) == b,
        escapes_cut_cleanly(b, 0),
{
    lemma_decode_from_plain(b, 0);
    assert(b.subrange(0, b.len() as int) =~= b);
}

/// A text whose UTF-8 encoding holds no `%` comes back unchanged from
/// percent-decoding: the decoded bytes are its own encoding, which is
/// valid UTF-8 and reads back as the text.
pub proof fn lemma_percent_decode_plain_text(s: Seq<char>)
    requires
        forall|k: int| 0 <= k < vstd::utf8::encode_utf8(s).len() ==> vstd::utf8::encode_utf8(s)[k] != 37,
    ensures
        escapes_cut_cleanly(vstd::utf8::encode_utf8(s), 0),
        valid_utf8(percent_decoded(vstd::utf8::encode_utf8(s))),
        decode_utf8(percent_decoded(vstd::utf8::encode_utf8(s))) == s,
{
    lemma_percent_decode_without_escapes(vstd::utf8::encode_utf8(s));
    vstd::utf8::encode_utf8_valid_utf8(s);
    vstd::utf8::encode_utf8_decode_utf8(s);
}

// ---------------------------------------------------------------------------
// Laws of pattern detection
// ---------------------------------------------------------------------------

/// The patterns of `ps` whose regular expression matches `context`.
pub open spec fn matching_patterns(ps: Seq<CompiledPattern>, context: Seq<char>) -> Seq<CompiledPattern> {
    ps.filter(|p: CompiledPattern| regex_matches(p.regex@, context))
}

/// The reports of the given patterns.
pub open spec fn reports_of(ps: Seq<CompiledPattern>) -> Seq<PatternMatchView> {
    ps.map_values(|p: CompiledPattern| report_of(p.def@))
}

proof fn lemma_matches_in_is_filter(ps: Seq<CompiledPattern>, context: Seq<char>)
    ensures
        matches_in(ps, context) == reports_of(matching_patterns(ps, context)),
    decreases ps.len(),
{
    reveal_with_fuel(Seq::filter, 1);
    if ps.len() == 0 {
        assert(matching_patterns(ps, context) =~= Seq::<CompiledPattern>::empty());
        assert(reports_of(matching_patterns(ps, context)) =~= Seq::<PatternMatchView>::empty());
    } else {
        lemma_matches_in_is_filter(ps.drop_last(), context);
        let f = |p: CompiledPattern| regex_matches(p.regex@, context);
        assert(ps.filter(f) == (if f(ps.last()) {
            ps.drop_last().filter(f).push(ps.last())
        } else {
            ps.drop_last().filter(f)
        }));
        if regex_matches(ps.last().regex@, context) {
            assert(reports_of(ps.drop_last().filter(f).push(ps.last())) =~= reports_of(
                ps.drop_last().filter(f),
            ).push(report_of(ps.last().def@)));
        }
    }
}

/// Matching a context reports each pattern whose regular expression
/// matches, exactly once, and nothing else, ordered by category rank.
pub proof fn lemma_match_context_reports_every_match(ps: Seq<CompiledPattern>, context: Seq<char>)
    ensures
        by_category(matches_in(ps, context)).to_multiset() == reports_of(
            matching_patterns(ps, context),
        ).to_multiset(),
        by_category(matches_in(ps, context)).len() == matching_patterns(ps, context).len(),
        forall|k: int|
            0 <= k < ps.len() && regex_matches(ps[k].regex@, context) ==> by_category(
                matches_in(ps, context),
            ).contains(#[trigger] report_of(ps[k].def@)),
        forall|x: PatternMatchView| #[trigger]
            by_category(matches_in(ps, context)).contains(x) ==> exists|k: int|
                0 <= k < ps.len() && regex_matches(ps[k].regex@, context) && #[trigger] report_of(
                    ps[k].def@,
                ) == x,
        forall|i: int, j: int|
            0 <= i < j < by_category(matches_in(ps, context)).len() ==> category_rank(
                by_category(matches_in(ps, context))[i].category,
            ) <= category_rank(by_category(matches_in(ps, context))[j].category),
{
    broadcast use vstd::seq_lib::group_to_multiset_ensures;

    let ms = matches_in(ps, context);
    let b = by_category(ms);
    let f = |p: CompiledPattern| regex_matches(p.regex@, context);
    lemma_matches_in_is_filter(ps, context);
    lemma_report_order_is_stable_sort(ms);
    assert(b.len() == ms.len()) by {
        assert(b.to_multiset().len() == ms.to_multiset().len());
    }
    assert forall|k: int| 0 <= k < ps.len() && regex_matches(ps[k].regex@, context) implies b.contains(
        #[trigger] report_of(ps[k].def@),
    ) by {
        assert(f(ps[k]));
        assert(ps.filter(f).contains(ps[k])) by {
            ps.lemma_filter_contains(f, k);
        }
        let j = choose|j: int| 0 <= j < ps.filter(f).len() && ps.filter(f)[j] == ps[k];
        assert(ms[j] == report_of(ps[k].def@));
        assert(ms.contains(report_of(ps[k].def@)));
        assert(ms.to_multiset().count(report_of(ps[k].def@)) > 0);
        assert(b.to_multiset().count(report_of(ps[k].def@)) > 0);
    }
    assert forall|x: PatternMatchView| #[trigger] b.contains(x) implies exists|k: int|
        0 <= k < ps.len() && regex_matches(ps[k].regex@, context) && #[trigger] report_of(ps[k].def@)
            == x by {
        assert(b.to_multiset().count(x) > 0);
        assert(ms.to_multiset().count(x) > 0);
        assert(ms.contains(x));
        let j = choose|j: int| 0 <= j < ms.len() && ms[j] == x;
        let p = ps.filter(f)[j];
        ps.lemma_filter_pred(f, j);
        assert(ps.filter(f).contains(p));
        ps.lemma_filter_contains_rev(f, p);
        assert(ps.contains(p));
        let k = choose|k: int| 0 <= k < ps.len() && ps[k] == p;
        assert(f(p));
        assert(report_of(ps[k].def@) == x);
    }
}

/// Detection in a source text reports exactly the patterns whose regular
/// expression matches the context window, each once, ordered by category
/// rank; with an empty window it reports nothing.
pub proof fn lemma_detection_reports_every_match(ps: Seq<CompiledPattern>, content: Seq<char>, line: u64)
    ensures
        context_window(content, line) is None ==> patterns_in_source(ps, content, line).len() == 0,
        context_window(content, line) matches Some(context) ==> {
            &&& patterns_in_source(ps, content, line).to_multiset() == reports_of(
                matching_patterns(ps, context),
            ).to_multiset()
            &&& forall|k: int|
                0 <= k < ps.len() && regex_matches(ps[k].regex@, context) ==> patterns_in_source(
                    ps,
                    content,
                    line,
                ).contains(#[trigger] report_of(ps[k].def@))
            &&& forall|i: int, j: int|
                0 <= i < j < patterns_in_source(ps, content, line).len() ==> category_rank(
                    patterns_in_source(ps, content, line)[i].category,
                ) <= category_rank(patterns_in_source(ps, content, line)[j].category)
        },
{
    match context_window(content, line) {
        Some(context) => {
            lemma_match_context_reports_every_match(ps, context);
        },
        None => {},
    }
}

/// The context window holds the hot line whenever the text has it, starts
/// five lines before it (or at the top), and ends twenty lines after it (or
/// at the bottom).
pub proof fn lemma_window_surrounds_hot_line(line: u64, n: nat)
    requires
        line + 20 <= u64::MAX,
    ensures
        line < n ==> window_start(line) <= line < window_end(line, n),
        window_start(line) == (if line >= 5 { line - 5 } else { 0 }),
        window_end(line, n) <= n,
        window_end(line, n) <= line + 20,
        window_end(line, n) == line + 20 || window_end(line, n) == n,
{
}

} // verus!
