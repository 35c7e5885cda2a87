//! Numbers in scripts and the `KEY=value` lines that benchmark scripts print.

use vstd::prelude::*;
use crate::text::chars_of;
use crate::text::copy_range;
use crate::text::has_prefix;
use crate::text::lines_of;
use crate::text::push_chars;
use crate::text::split_lines;
use crate::text::starts_with_chars;
use crate::text::string_from_chars;
use crate::text::views;

verus! {

/// The decimal digit character for `d < 10`.
pub open spec fn digit_char(d: nat) -> char {
    if d == 0 {
        '0'
    } else if d == 1 {
        '1'
    } else if d == 2 {
        '2'
    } else if d == 3 {
        '3'
    } else if d == 4 {
        '4'
    } else if d == 5 {
        '5'
    } else if d == 6 {
        '6'
    } else if d == 7 {
        '7'
    } else if d == 8 {
        '8'
    } else {
        '9'
    }
}

/// The decimal notation of `n`, without leading zeros.
pub open spec fn decimal(n: nat) -> Seq<char>
    decreases n,
{
    if n < 10 {
        seq![digit_char(n)]
    } else {
        decimal(n / 10).push(digit_char(n % 10))
    }
}

fn digit(d: u64) -> (c: char)
    requires
        d < 10,
    ensures
        c == digit_char(d as nat),
{
    if d == 0 {
        '0'
    } else if d == 1 {
        '1'
    } else if d == 2 {
        '2'
    } else if d == 3 {
        '3'
    } else if d == 4 {
        '4'
    } else if d == 5 {
        '5'
    } else if d == 6 {
        '6'
    } else if d == 7 {
        '7'
    } else if d == 8 {
        '8'
    } else {
        '9'
    }
}

/// The decimal digits of `n`.
pub fn decimal_chars(n: u64) -> (v: Vec<char>)
    ensures
        v@ == decimal(n as nat),
{
    let mut m = n;
    let mut digits: Vec<char> = Vec::new();
    loop
        invariant
            decimal(n as nat) == decimal(m as nat) + digits@,
        decreases m,
    {
        let d = digit(m % 10);
        let ghost before = digits@;
        digits.insert(0, d);
        assert(digits@ =~= seq![d] + before);
        if m < 10 {
            assert(decimal(m as nat) == seq![d]);
            assert(decimal(n as nat) =~= digits@);
            return digits;
        }
        assert(decimal(m as nat) == decimal((m / 10) as nat).push(d));
        assert(decimal((m / 10) as nat).push(d) + before =~= decimal((m / 10) as nat) + digits@);
        m = m / 10;
    }
}

/// Appends the decimal notation of `n` to `s`.
pub fn push_decimal(s: &mut String, n: u64)
    ensures
        final(s)@ == old(s)@ + decimal(n as nat),
{
    let d = decimal_chars(n);
    push_chars(s, &d);
}

/// What follows `prefix` in the last line of `ls` that starts with it;
/// with `skip_na`, lines whose rest is `NA` are passed over.
pub open spec fn last_field(ls: Seq<Seq<char>>, prefix: Seq<char>, skip_na: bool) -> Option<Seq<char>>
    decreases ls.len(),
{
    if ls.len() == 0 {
        None
    } else {
        let l = ls.last();
        if has_prefix(l, prefix) && !(skip_na && l.subrange(prefix.len() as int, l.len() as int)
            == seq!['N', 'A']) {
            Some(l.subrange(prefix.len() as int, l.len() as int))
        } else {
            last_field(ls.drop_last(), prefix, skip_na)
        }
    }
}

/// The value printed last after `prefix` in the output of a script (see
/// [`last_field`]).
pub fn field_value(output: &str, prefix: &str, skip_na: bool) -> (r: Option<String>)
    ensures
        match r {
            Some(v) => last_field(lines_of(output@), prefix@, skip_na) == Some(v@),
            None => last_field(lines_of(output@), prefix@, skip_na) is None,
        },
{
    let chars = chars_of(output);
    let lines = split_lines(&chars);
    let p = chars_of(prefix);
    let mut found: Option<Vec<char>> = None;
    let mut i: usize = 0;
    while i < lines.len()
        invariant
            0 <= i <= lines@.len(),
            p@ == prefix@,
            views(lines@) == lines_of(output@),
            match found {
                Some(v) => last_field(views(lines@).take(i as int), p@, skip_na) == Some(v@),
                None => last_field(views(lines@).take(i as int), p@, skip_na) is None,
            },
        decreases lines@.len() - i,
    {
        let line = &lines[i];
        assert(views(lines@).take(i + 1).drop_last() =~= views(lines@).take(i as int));
        assert(views(lines@).take(i + 1).last() == line@);
        if starts_with_chars(line, &p) {
            let rest = copy_range(line, p.len(), line.len());
            let is_na = rest.len() == 2 && rest[0] == 'N' && rest[1] == 'A';
            assert(is_na == (rest@ == seq!['N', 'A'])) by {
                if rest@ == seq!['N', 'A'] {
                    assert(rest@[0] == 'N' && rest@[1] == 'A');
                }
                if is_na {
                    assert(rest@ =~= seq!['N', 'A']);
                }
            }
            if !(skip_na && is_na) {
                found = Some(rest);
            }
        }
        i += 1;
    }
    assert(views(lines@).take(lines@.len() as int) =~= views(lines@));
    match found {
        Some(v) => Some(string_from_chars(&v)),
        None => None,
    }
}

/// The value of `key` in output lines of the form `KEY=value`, the last
/// line for the key winning. For a key without `=`, a line belongs to the
/// key exactly when it starts with the key and `=`.
pub fn key_value(output: &str, key: &str) -> (r: Option<String>)
    requires
        !key@.contains('='),
    ensures
        match r {
            Some(v) => last_field(lines_of(output@), key@.push('='), false) == Some(v@),
            None => last_field(lines_of(output@), key@.push('='), false) is None,
        },
{
    let mut prefix = String::from_str(key);
    crate::text::push_char(&mut prefix, '=');
    field_value(output, prefix.as_str(), false)
}

} // verus!
