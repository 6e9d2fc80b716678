//! Decimal text for integers: writing them out and reading them back, the
//! way Rust's `to_string` and `str::parse` do for `u32`, `u64`, `usize` and
//! `i32`.

use vstd::prelude::*;
use crate::text::push_char;

verus! {

/// The character of a decimal digit `d` (0..=9).
pub open spec fn digit_char(d: nat) -> char {
    if d == 0 { '0' }
    else if d == 1 { '1' }
    else if d == 2 { '2' }
    else if d == 3 { '3' }
    else if d == 4 { '4' }
    else if d == 5 { '5' }
    else if d == 6 { '6' }
    else if d == 7 { '7' }
    else if d == 8 { '8' }
    else { '9' }
}

/// The shortest decimal spelling of `n`: no sign, no leading zeros.
pub open spec fn decimal_digits(n: nat) -> Seq<char>
    decreases n,
{
    if n < 10 {
        seq![digit_char(n)]
    } else {
        decimal_digits(n / 10).push(digit_char(n % 10))
    }
}

/// The decimal spelling of a signed number, with a leading `-` when negative.
pub open spec fn signed_decimal(n: int) -> Seq<char> {
    if n < 0 {
        seq!['-'] + decimal_digits((-n) as nat)
    } else {
        decimal_digits(n as nat)
    }
}

fn digit_to_char(d: u64) -> (c: char)
    requires
        d < 10,
    ensures
        c == digit_char(d as nat),
{
    if d == 0 { '0' }
    else if d == 1 { '1' }
    else if d == 2 { '2' }
    else if d == 3 { '3' }
    else if d == 4 { '4' }
    else if d == 5 { '5' }
    else if d == 6 { '6' }
    else if d == 7 { '7' }
    else if d == 8 { '8' }
    else { '9' }
}

/// Appends the decimal spelling of `n` to `out`.
pub fn write_decimal(out: &mut String, n: u64)
    ensures
        final(out)@ == old(out)@ + decimal_digits(n as nat),
    decreases n,
{
    if n >= 10 {
        write_decimal(out, n / 10);
    }
    let c = digit_to_char(n % 10);
    push_char(out, c);
    assert(old(out)@ + decimal_digits(n as nat) =~= out@);
}

/// The decimal spelling of `n`, as `n.to_string()` gives it.
pub fn u64_to_decimal(n: u64) -> (s: String)
    ensures
        s@ == decimal_digits(n as nat),
{
    let mut s = String::new();
    write_decimal(&mut s, n);
    assert(s@ =~= decimal_digits(n as nat));
    s
}

/// The decimal spelling of `n`, as `n.to_string()` gives it.
pub fn i32_to_decimal(n: i32) -> (s: String)
    ensures
        s@ == signed_decimal(n as int),
{
    let mut s = String::new();
    if n < 0 {
        push_char(&mut s, '-');
        let m: u64 = (0i64 - (n as i64)) as u64;
        write_decimal(&mut s, m);
    } else {
        write_decimal(&mut s, n as u64);
    }
    assert(s@ =~= signed_decimal(n as int));
    s
}


/// Whether `c` is one of the ASCII digits `0`..`9`.
pub open spec fn is_digit(c: char) -> bool {
    '0' <= c && c <= '9'
}

/// The value of a digit character.
pub open spec fn digit_value(c: char) -> nat {
    (c as int - '0' as int) as nat
}

/// Whether every character of `s` is an ASCII digit.
pub open spec fn all_digits(s: Seq<char>) -> bool {
    forall|i: int| 0 <= i < s.len() ==> is_digit(#[trigger] s[i])
}

/// The number that a run of decimal digits stands for.
pub open spec fn digits_value(s: Seq<char>) -> nat
    decreases s.len(),
{
    if s.len() == 0 {
        0
    } else {
        digits_value(s.drop_last()) * 10 + digit_value(s.last())
    }
}

/// Whether `s` is a non-empty run of decimal digits.
pub open spec fn is_digit_run(s: Seq<char>) -> bool {
    s.len() > 0 && all_digits(s)
}

/// What `s.parse::<u32>()` gives: an optional `+`, then one or more decimal
/// digits whose value fits in a `u32`.
pub open spec fn spec_parse_u32(s: Seq<char>) -> Option<u32> {
    let d = if s.len() > 0 && s[0] == '+' { s.drop_first() } else { s };
    if is_digit_run(d) && digits_value(d) <= u32::MAX {
        Some(digits_value(d) as u32)
    } else {
        None
    }
}

/// What `s.parse::<i32>()` gives: an optional `+` or `-`, then one or more
/// decimal digits whose signed value fits in an `i32`.
pub open spec fn spec_parse_i32(s: Seq<char>) -> Option<i32> {
    if s.len() > 0 && s[0] == '-' {
        let d = s.drop_first();
        if is_digit_run(d) && digits_value(d) <= 0x8000_0000 {
            Some((-(digits_value(d) as int)) as i32)
        } else {
            None
        }
    } else {
        let d = if s.len() > 0 && s[0] == '+' { s.drop_first() } else { s };
        if is_digit_run(d) && digits_value(d) <= i32::MAX {
            Some(digits_value(d) as i32)
        } else {
            None
        }
    }
}

/// Taking one more digit multiplies the value by ten and adds the digit.
proof fn lemma_digits_value_step(s: Seq<char>, i: int)
    requires
        0 <= i < s.len(),
    ensures
        digits_value(s.take(i + 1)) == digits_value(s.take(i)) * 10 + digit_value(s[i]),
{
    assert(s.take(i + 1).drop_last() =~= s.take(i));
}

/// A longer run of digits is worth at least as much as any of its prefixes.
proof fn lemma_digits_value_prefix(s: Seq<char>, k: int)
    requires
        0 <= k <= s.len(),
    ensures
        digits_value(s.take(k)) <= digits_value(s),
    decreases s.len(),
{
    if k < s.len() {
        lemma_digits_value_prefix(s.drop_last(), k);
        assert(s.drop_last().take(k) =~= s.take(k));
    } else {
        assert(s.take(k) =~= s);
    }
}

/// Reads the unsigned decimal number spelled by `s` from index `start` to its
/// end; `None` when that part is empty, holds a non-digit, or is worth more
/// than `limit`.
fn parse_digits(s: &str, start: usize, limit: u64) -> (r: Option<u64>)
    requires
        start <= s@.len(),
        9 <= limit,
    ensures
        ({
            let d = s@.subrange(start as int, s@.len() as int);
            match r {
                Some(v) => is_digit_run(d) && digits_value(d) <= limit && v == digits_value(d),
                None => !(is_digit_run(d) && digits_value(d) <= limit),
            }
        }),
{
    let n = s.unicode_len();
    let ghost d = s@.subrange(start as int, s@.len() as int);
    if start == n {
        return None;
    }
    let mut acc: u64 = 0;
    let mut i: usize = start;
    while i < n
        invariant
            n == s@.len(),
            start < n,
            start <= i <= n,
            d == s@.subrange(start as int, n as int),
            all_digits(d.take(i - start)),
            acc == digits_value(d.take(i - start)),
            acc <= limit,
            9 <= limit,
        decreases n - i,
    {
        let c = s.get_char(i);
        assert(c == d[i - start]);
        if c < '0' || c > '9' {
            return None;
        }
        let v: u64 = (c as u32 - '0' as u32) as u64;
        proof {
            lemma_digits_value_step(d, i - start);
        }
        if acc > (limit - v) / 10 {
            proof {
                assert(acc * 10 + v > limit) by (nonlinear_arith)
                    requires acc > (limit - v) / 10, v <= 9, 9 <= limit;
                lemma_digits_value_prefix(d, i - start + 1);
            }
            return None;
        }
        assert(acc * 10 + v <= limit) by (nonlinear_arith)
            requires acc <= (limit - v) / 10, v <= 9;
        acc = acc * 10 + v;
        assert(d.take(i + 1 - start) =~= d.take(i - start).push(c));
        i = i + 1;
    }
    assert(d.take(n - start) =~= d);
    Some(acc)
}


/// Reads a `u32` from its decimal spelling, as `s.parse::<u32>().ok()` does.
pub fn parse_u32(s: &str) -> (r: Option<u32>)
    ensures
        r == spec_parse_u32(s@),
{
    let n = s.unicode_len();
    let start: usize = if n > 0 && s.get_char(0) == '+' { 1 } else { 0 };
    proof {
        let d = if s@.len() > 0 && s@[0] == '+' { s@.drop_first() } else { s@ };
        assert(d =~= s@.subrange(start as int, s@.len() as int));
    }
    match parse_digits(s, start, 0xFFFF_FFFF) {
        Some(v) => Some(v as u32),
        None => None,
    }
}

/// Reads an `i32` from its decimal spelling, as `s.parse::<i32>().ok()` does.
pub fn parse_i32(s: &str) -> (r: Option<i32>)
    ensures
        r == spec_parse_i32(s@),
{
    let n = s.unicode_len();
    if n > 0 && s.get_char(0) == '-' {
        assert(s@.drop_first() =~= s@.subrange(1, s@.len() as int));
        match parse_digits(s, 1, 0x8000_0000) {
            Some(v) => Some((0i64 - (v as i64)) as i32),
            None => None,
        }
    } else {
        let start: usize = if n > 0 && s.get_char(0) == '+' { 1 } else { 0 };
        proof {
            let d = if s@.len() > 0 && s@[0] == '+' { s@.drop_first() } else { s@ };
            assert(d =~= s@.subrange(start as int, s@.len() as int));
        }
        match parse_digits(s, start, 0x7FFF_FFFF) {
            Some(v) => Some(v as i32),
            None => None,
        }
    }
}

/// The decimal spelling of `n` is a run of digits worth exactly `n`.
pub proof fn lemma_decimal_digits_value(n: nat)
    ensures
        is_digit_run(decimal_digits(n)),
        digits_value(decimal_digits(n)) == n,
        decimal_digits(n)[0] != '+' && decimal_digits(n)[0] != '-',
    decreases n,
{
    if n >= 10 {
        lemma_decimal_digits_value(n / 10);
        let s = decimal_digits(n);
        assert(s.drop_last() =~= decimal_digits(n / 10));
        assert(digit_value(s.last()) == n % 10);
        assert((n / 10) * 10 + n % 10 == n);
        assert(digits_value(s) == digits_value(s.drop_last()) * 10 + digit_value(s.last()));
        assert(digits_value(s.drop_last()) == n / 10);
    } else {
        let s = decimal_digits(n);
        assert(s.drop_last() =~= Seq::<char>::empty());
        assert(digits_value(s) == digits_value(s.drop_last()) * 10 + digit_value(s.last()));
    }
}

/// Reading back the decimal text of a `u32` gives the number again.
pub proof fn lemma_parse_u32_of_decimal(n: u32)
    ensures
        spec_parse_u32(decimal_digits(n as nat)) == Some(n),
{
    lemma_decimal_digits_value(n as nat);
}

/// Reading back the decimal text of an `i32` gives the number again.
pub proof fn lemma_parse_i32_of_decimal(n: i32)
    ensures
        spec_parse_i32(signed_decimal(n as int)) == Some(n),
{
    if n < 0 {
        lemma_decimal_digits_value((-n) as nat);
        assert((seq!['-'] + decimal_digits((-n) as nat)).drop_first() =~= decimal_digits((-n) as nat));
    } else {
        lemma_decimal_digits_value(n as nat);
    }
}


/// Whether `t` is the plain decimal spelling of `n`: digits only, no sign,
/// no leading zero (but for `0` itself), worth `n`.
pub open spec fn spells_nat(t: Seq<char>, n: nat) -> bool {
    &&& is_digit_run(t)
    &&& (t.len() == 1 || t[0] != '0')
    &&& digits_value(t) == n
}

/// Whether `t` is the plain decimal spelling of `n`, with a leading `-` when
/// `n` is negative.
pub open spec fn spells_int(t: Seq<char>, n: int) -> bool {
    if n < 0 {
        t.len() > 0 && t[0] == '-' && spells_nat(t.drop_first(), (-n) as nat)
    } else {
        spells_nat(t, n as nat)
    }
}

/// The first digit of the spelling of a number of two or more digits is not
/// zero.
proof fn lemma_decimal_digits_leading(n: nat)
    ensures
        decimal_digits(n).len() == 1 || decimal_digits(n)[0] != '0',
        n >= 1 ==> decimal_digits(n)[0] != '0',
    decreases n,
{
    if n >= 10 {
        lemma_decimal_digits_leading(n / 10);
        assert(decimal_digits(n)[0] == decimal_digits(n / 10)[0]);
    }
}

/// `decimal_digits` gives the plain decimal spelling of a number.
pub proof fn lemma_decimal_digits_spell(n: nat)
    ensures
        spells_nat(decimal_digits(n), n),
{
    lemma_decimal_digits_value(n);
    lemma_decimal_digits_leading(n);
}

/// `signed_decimal` gives the plain decimal spelling of a number.
pub proof fn lemma_signed_decimal_spells(n: int)
    ensures
        spells_int(signed_decimal(n), n),
{
    if n < 0 {
        lemma_decimal_digits_spell((-n) as nat);
        assert((seq!['-'] + decimal_digits((-n) as nat)).drop_first() =~= decimal_digits((-n) as nat));
    } else {
        lemma_decimal_digits_spell(n as nat);
    }
}

} // verus!
