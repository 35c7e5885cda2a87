//! Character-level text utilities shared by the rest of the library.

use vstd::prelude::*;
use vstd::string::StringSliceAdditionalSpecFns;
use vstd::utf8::decode_utf8;
use vstd::utf8::is_char_boundary;

verus! {

/// The character views of a sequence of strings.
pub open spec fn string_views(v: Seq<String>) -> Seq<Seq<char>> {
    v.map_values(|s: String| s@)
}

/// A label cut down for a table column: texts longer than `max_len` bytes
/// keep their first `keep` bytes followed by `...`.
pub open spec fn shortened(bytes: Seq<u8>, text: Seq<char>, max_len: usize, keep: usize) -> Seq<char> {
    if bytes.len() > max_len {
        decode_utf8(bytes.subrange(0, keep as int)) + "..."@
    } else {
        text
    }
}

/// Cuts a label down for a table column (see [`shortened`]). The cut must
/// fall on a character boundary.
pub fn shorten(name: &str, max_len: usize, keep: usize) -> (r: String)
    requires
        name.spec_bytes().len() <= usize::MAX,
        name.spec_bytes().len() <= max_len || is_char_boundary(name.spec_bytes(), keep as int),
    ensures
        r@ == shortened(name.spec_bytes(), name@, max_len, keep),
{
    if name.len() > max_len {
        let (head, _tail) = name.split_at(keep);
        proof {
            vstd::utf8::encode_utf8_decode_utf8(head@);
            assert(head.spec_bytes() == name.spec_bytes().subrange(0, keep as int));
            assert(head@ == decode_utf8(name.spec_bytes().subrange(0, keep as int)));
        }
        let mut s = String::from_str(head);
        push_str(&mut s, "...");
        s
    } else {
        String::from_str(name)
    }
}

/// `needle` occurs in `hay` starting at position `i`.
pub open spec fn occurs_at(hay: Seq<char>, needle: Seq<char>, i: int) -> bool {
    0 <= i && i + needle.len() <= hay.len() && hay.subrange(i, i + needle.len()) == needle
}

/// `needle` occurs somewhere in `hay` (the empty needle occurs in every text).
pub open spec fn has_substring(hay: Seq<char>, needle: Seq<char>) -> bool {
    exists|i: int| occurs_at(hay, needle, i)
}

/// The characters of a string slice, in order.
pub fn chars_of(s: &str) -> (v: Vec<char>)
    ensures
        v@ == s@,
{
    let mut v: Vec<char> = Vec::new();
    for c in it: s.chars()
        invariant
            v@ == it.seq().take(it.index() as int),
    {
        v.push(c);
    }
    v
}

/// Whether `needle` occurs as a contiguous run inside `hay`.
pub fn contains_chars(hay: &Vec<char>, needle: &Vec<char>) -> (b: bool)
    ensures
        b == has_substring(hay@, needle@),
{
    if needle.len() > hay.len() {
        assert forall|i: int| !occurs_at(hay@, needle@, i) by {}
        return false;
    }
    let hay_len = hay.len();
    let last = hay_len - needle.len();
    let mut i: usize = 0;
    loop
        invariant
            last == hay@.len() - needle@.len(),
            hay_len == hay@.len(),
            0 <= i <= last,
            forall|k: int| 0 <= k < i ==> !occurs_at(hay@, needle@, k),
        decreases last - i,
    {
        let mut j: usize = 0;
        let mut ok = true;
        while j < needle.len()
            invariant
                0 <= i <= last,
                hay_len == hay@.len(),
                last == hay@.len() - needle@.len(),
                0 <= j <= needle@.len(),
                ok ==> forall|m: int| 0 <= m < j ==> hay@[i + m] == needle@[m],
                !ok ==> !occurs_at(hay@, needle@, i as int),
            decreases needle@.len() - j,
        {
            if hay[i + j] != needle[j] {
                ok = false;
                assert(hay@.subrange(i as int, i + needle@.len())[j as int] != needle@[j as int]);
            }
            j += 1;
        }
        if ok {
            assert(hay@.subrange(i as int, i + needle@.len()) =~= needle@);
            assert(occurs_at(hay@, needle@, i as int));
            return true;
        }
        if i == last {
            assert forall|k: int| !occurs_at(hay@, needle@, k) by {
                if 0 <= k && k + needle@.len() <= hay@.len() {
                    assert(k <= i);
                }
            }
            return false;
        }
        i += 1;
    }
}


/// Appends one character to a string with `String::push`. Claimed: the new
/// contents are the old contents followed by `c`.
#[verifier::external_body]
pub(crate) fn push_char(s: &mut String, c: char)
    ensures
        final(s)@ == old(s)@.push(c),
{
    s.push(c);
}

/// A string holding exactly the given characters.
pub fn string_from_chars(v: &Vec<char>) -> (s: String)
    ensures
        s@ == v@,
{
    let mut s = String::new();
    let mut i: usize = 0;
    while i < v.len()
        invariant
            0 <= i <= v@.len(),
            s@ == v@.take(i as int),
        decreases v@.len() - i,
    {
        push_char(&mut s, v[i]);
        assert(v@.take(i + 1) =~= v@.take(i as int).push(v@[i as int]));
        i += 1;
    }
    assert(v@.take(v@.len() as int) =~= v@);
    s
}

/// Appends all characters of `v` to `s`.
pub fn push_chars(s: &mut String, v: &Vec<char>)
    ensures
        final(s)@ == old(s)@ + v@,
{
    let mut i: usize = 0;
    while i < v.len()
        invariant
            0 <= i <= v@.len(),
            s@ == old(s)@ + v@.take(i as int),
        decreases v@.len() - i,
    {
        push_char(s, v[i]);
        assert(v@.take(i + 1) =~= v@.take(i as int).push(v@[i as int]));
        i += 1;
    }
    assert(v@.take(v@.len() as int) =~= v@);
}

/// Appends all characters of `t` to `s`.
pub fn push_str(s: &mut String, t: &str)
    ensures
        final(s)@ == old(s)@ + t@,
{
    let v = chars_of(t);
    push_chars(s, &v);
}

/// Whether two character vectors are equal.
pub fn chars_equal(a: &Vec<char>, b: &Vec<char>) -> (r: bool)
    ensures
        r == (a@ == b@),
{
    if a.len() != b.len() {
        return false;
    }
    let mut i: usize = 0;
    while i < a.len()
        invariant
            a@.len() == b@.len(),
            0 <= i <= a@.len(),
            forall|k: int| 0 <= k < i ==> a@[k] == b@[k],
        decreases a@.len() - i,
    {
        if a[i] != b[i] {
            return false;
        }
        i += 1;
    }
    assert(a@ =~= b@);
    true
}

/// Whether two string slices hold the same text.
pub fn same_text(a: &str, b: &str) -> (r: bool)
    ensures
        r == (a@ == b@),
{
    let va = chars_of(a);
    let vb = chars_of(b);
    chars_equal(&va, &vb)
}

/// The characters `v[lo..hi]` as a new vector.
pub fn copy_range(v: &Vec<char>, lo: usize, hi: usize) -> (r: Vec<char>)
    requires
        lo <= hi <= v@.len(),
    ensures
        r@ == v@.subrange(lo as int, hi as int),
{
    let mut r: Vec<char> = Vec::new();
    let mut i = lo;
    while i < hi
        invariant
            lo <= i <= hi <= v@.len(),
            r@ == v@.subrange(lo as int, i as int),
        decreases hi - i,
    {
        r.push(v[i]);
        assert(v@.subrange(lo as int, i + 1) =~= v@.subrange(lo as int, i as int).push(v@[i as int]));
        i += 1;
    }
    r
}

/// Whether `s` begins with `prefix`.
pub open spec fn has_prefix(s: Seq<char>, prefix: Seq<char>) -> bool {
    prefix.len() <= s.len() && s.subrange(0, prefix.len() as int) == prefix
}

/// Whether the characters of `v` begin with `prefix`.
pub fn starts_with_chars(v: &Vec<char>, prefix: &Vec<char>) -> (r: bool)
    ensures
        r == has_prefix(v@, prefix@),
{
    if prefix.len() > v.len() {
        return false;
    }
    let mut i: usize = 0;
    while i < prefix.len()
        invariant
            prefix@.len() <= v@.len(),
            0 <= i <= prefix@.len(),
            forall|k: int| 0 <= k < i ==> v@[k] == prefix@[k],
        decreases prefix@.len() - i,
    {
        if v[i] != prefix[i] {
            assert(v@.subrange(0, prefix@.len() as int)[i as int] != prefix@[i as int]);
            return false;
        }
        i += 1;
    }
    assert(v@.subrange(0, prefix@.len() as int) =~= prefix@);
    true
}

// ---------------------------------------------------------------------------
// Lines, as `str::lines` splits them.
// ---------------------------------------------------------------------------

/// Index of the first line feed at or after `i`, or the length of `c`.
pub open spec fn line_end(c: Seq<char>, i: int) -> int
    decreases c.len() - i,
{
    if i >= c.len() {
        c.len() as int
    } else if c[i] == '\n' {
        i
    } else {
        line_end(c, i + 1)
    }
}

pub proof fn lemma_line_end(c: Seq<char>, i: int)
    requires
        0 <= i <= c.len(),
    ensures
        i <= line_end(c, i) <= c.len(),
        line_end(c, i) < c.len() ==> c[line_end(c, i)] == '\n',
        forall|k: int| i <= k < line_end(c, i) ==> c[k] != '\n',
    decreases c.len() - i,
{
    if i < c.len() && c[i] != '\n' {
        lemma_line_end(c, i + 1);
    }
}

/// A line without the carriage return of a `\r\n` ending.
pub open spec fn strip_cr(l: Seq<char>) -> Seq<char> {
    if l.len() > 0 && l.last() == '\r' {
        l.drop_last()
    } else {
        l
    }
}

/// The lines of `c` from position `i` on: pieces between line feeds, each
/// terminated piece without one trailing `\r`, and no empty piece after a
/// final line feed.
pub open spec fn lines_from(c: Seq<char>, i: int) -> Seq<Seq<char>>
    decreases c.len() - i,
{
    if i < 0 || i >= c.len() {
        seq![]
    } else {
        let e = line_end(c, i);
        proof {
            lemma_line_end(c, i);
        }
        if e >= c.len() {
            seq![c.subrange(i, c.len() as int)]
        } else {
            seq![strip_cr(c.subrange(i, e))] + lines_from(c, e + 1)
        }
    }
}

/// The lines of a text, as `str::lines` yields them.
pub open spec fn lines_of(c: Seq<char>) -> Seq<Seq<char>> {
    lines_from(c, 0)
}

/// The character views of a vector of character vectors.
pub open spec fn views(v: Seq<Vec<char>>) -> Seq<Seq<char>> {
    v.map_values(|l: Vec<char>| l@)
}

/// Splits a text into its lines.
pub fn split_lines(c: &Vec<char>) -> (r: Vec<Vec<char>>)
    ensures
        views(r@) == lines_of(c@),
{
    let n = c.len();
    let mut out: Vec<Vec<char>> = Vec::new();
    let mut i: usize = 0;
    while i < n
        invariant
            n == c@.len(),
            0 <= i <= n,
            views(out@) + lines_from(c@, i as int) == lines_of(c@),
        decreases n - i,
    {
        let mut e = i;
        while e < n && c[e] != '\n'
            invariant
                n == c@.len(),
                0 <= i <= e <= n,
                i < n,
                line_end(c@, i as int) == line_end(c@, e as int),
            decreases n - e,
        {
            e += 1;
        }
        proof {
            lemma_line_end(c@, i as int);
        }
        assert(e == line_end(c@, i as int));
        let mut line = copy_range(c, i, e);
        if e < n && line.len() > 0 && line[line.len() - 1] == '\r' {
            line.pop();
        }
        let ghost lv = line@;
        let ghost prev = views(out@);
        out.push(line);
        assert(views(out@) =~= prev.push(lv));
        if e == n {
            assert(lines_from(c@, i as int) =~= seq![lv]);
            assert(lines_from(c@, n as int) =~= Seq::<Seq<char>>::empty());
            assert(views(out@) + lines_from(c@, n as int) =~= prev + lines_from(c@, i as int));
            i = n;
        } else {
            assert(lv == strip_cr(c@.subrange(i as int, e as int)));
            assert(lines_from(c@, i as int) =~= seq![lv] + lines_from(c@, e + 1));
            assert(views(out@) + lines_from(c@, e + 1) =~= prev + lines_from(c@, i as int));
            i = e + 1;
        }
    }
    assert(lines_from(c@, n as int) =~= Seq::<Seq<char>>::empty());
    assert(views(out@) =~= views(out@) + lines_from(c@, i as int));
    out
}

/// Lines joined with a line feed between consecutive lines.
pub open spec fn join_lines(s: Seq<Seq<char>>) -> Seq<char>
    decreases s.len(),
{
    if s.len() == 0 {
        seq![]
    } else if s.len() == 1 {
        s[0]
    } else {
        join_lines(s.drop_last()) + seq!['\n'] + s.last()
    }
}

/// Joins `lines[lo..hi]` with line feeds.
pub fn join_range(lines: &Vec<Vec<char>>, lo: usize, hi: usize) -> (r: Vec<char>)
    requires
        lo <= hi <= lines@.len(),
    ensures
        r@ == join_lines(views(lines@).subrange(lo as int, hi as int)),
{
    let mut r: Vec<char> = Vec::new();
    let mut k = lo;
    while k < hi
        invariant
            lo <= k <= hi <= lines@.len(),
            r@ == join_lines(views(lines@).subrange(lo as int, k as int)),
        decreases hi - k,
    {
        let ghost before = r@;
        if k > lo {
            r.push('\n');
        }
        let line = &lines[k];
        let mut j: usize = 0;
        let ghost mid = r@;
        while j < line.len()
            invariant
                0 <= j <= line@.len(),
                r@ == mid + line@.take(j as int),
            decreases line@.len() - j,
        {
            r.push(line[j]);
            assert(line@.take(j + 1) =~= line@.take(j as int).push(line@[j as int]));
            j += 1;
        }
        assert(line@.take(line@.len() as int) =~= line@);
        let ghost sub = views(lines@).subrange(lo as int, k + 1);
        assert(sub.drop_last() =~= views(lines@).subrange(lo as int, k as int));
        assert(sub.last() == lines@[k as int]@);
        if k == lo {
            assert(sub.len() == 1);
            assert(r@ =~= join_lines(sub));
        } else {
            assert(r@ =~= join_lines(sub));
        }
        k += 1;
    }
    r
}

} // verus!
