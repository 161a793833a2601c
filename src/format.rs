//! Human-readable byte counts in binary (1024-based) units.
use vstd::prelude::*;
use crate::text::{digit_value, grouped_u64, grouped_value, is_digit, is_grouped_number, is_separator, string_from_chars};

verus! {

pub open spec fn pow1024(i: nat) -> nat
    decreases i,
{
    if i == 0 {
        1
    } else {
        1024 * pow1024((i - 1) as nat)
    }
}

/// The largest unit, counting up from `i`, that does not exceed `b`
/// (the largest unit is the sixth).
pub open spec fn unit_from(b: nat, i: nat) -> nat
    decreases 6 - i,
{
    if i < 6 && pow1024(i + 1) <= b {
        unit_from(b, i + 1)
    } else {
        i
    }
}

pub open spec fn unit_index(b: nat) -> nat {
    unit_from(b, 0)
}

pub open spec fn unit_name(i: nat) -> Seq<char> {
    if i == 0 {
        seq!['B']
    } else if i == 1 {
        seq!['K', 'i', 'B']
    } else if i == 2 {
        seq!['M', 'i', 'B']
    } else if i == 3 {
        seq!['G', 'i', 'B']
    } else if i == 4 {
        seq!['T', 'i', 'B']
    } else if i == 5 {
        seq!['P', 'i', 'B']
    } else {
        seq!['E', 'i', 'B']
    }
}

pub open spec fn digit_char(d: nat) -> char {
    if d == 0 {
        '0'
    } else if d == 1 {
        '1'
    } else if d == 2 {
        '2'
    } else if d == 3 {
        '3'
    } else if d == 4 {
        '4'
    } else if d == 5 {
        '5'
    } else if d == 6 {
        '6'
    } else if d == 7 {
        '7'
    } else if d == 8 {
        '8'
    } else {
        '9'
    }
}

/// `n` in decimal, without leading zeros.
pub open spec fn decimal(n: nat) -> Seq<char>
    decreases n,
{
    if n < 10 {
        seq![digit_char(n)]
    } else {
        decimal(n / 10).push(digit_char(n % 10))
    }
}

/// `n / d` rounded to the nearest integer, ties to even.
pub open spec fn div_round_even(n: nat, d: nat) -> nat {
    let q = n / d;
    let r = n % d;
    if 2 * r > d || (2 * r == d && q % 2 == 1) {
        q + 1
    } else {
        q
    }
}

/// How `format_bytes` renders `b`: whole bytes as `<n> B`; larger sizes in
/// the largest unit that fits, with one decimal place.
pub open spec fn bytes_text(b: nat) -> Seq<char> {
    let i = unit_index(b);
    if i == 0 {
        decimal(b) + seq![' '] + unit_name(0)
    } else {
        let t = div_round_even(b * 10, pow1024(i));
        decimal(t / 10) + seq!['.', digit_char(t % 10), ' '] + unit_name(i)
    }
}

/// `n` in decimal with a comma between groups of three digits, as the
/// transfer tool prints its counts (`1,234,567`).
pub open spec fn grouped_text(n: nat) -> Seq<char>
    decreases n,
{
    if n < 1000 {
        decimal(n)
    } else {
        let r = n % 1000;
        grouped_text(n / 1000) + seq![
            ',',
            digit_char(r / 100),
            digit_char((r / 10) % 10),
            digit_char(r % 10),
        ]
    }
}

pub proof fn lemma_digit_char(d: nat)
    requires
        d < 10,
    ensures
        is_digit(digit_char(d)),
        digit_value(digit_char(d)) == d,
{
}

proof fn lemma_value_push(a: Seq<char>, c: char)
    ensures
        grouped_value(a.push(c)) == if is_digit(c) {
            grouped_value(a) * 10 + digit_value(c)
        } else {
            grouped_value(a)
        },
{
    assert(a.push(c).drop_last() =~= a);
}

pub proof fn lemma_decimal(n: nat)
    ensures
        grouped_value(decimal(n)) == n,
        decimal(n).len() > 0,
        forall|k: int| 0 <= k < decimal(n).len() ==> is_digit(#[trigger] decimal(n)[k]),
    decreases n,
{
    if n < 10 {
        lemma_digit_char(n);
        lemma_value_push(Seq::<char>::empty(), digit_char(n));
        assert(seq![digit_char(n)] =~= Seq::<char>::empty().push(digit_char(n)));
    } else {
        lemma_decimal(n / 10);
        lemma_digit_char(n % 10);
        lemma_value_push(decimal(n / 10), digit_char(n % 10));
    }
}

pub proof fn lemma_grouped_text(n: nat)
    ensures
        grouped_value(grouped_text(n)) == n,
        grouped_text(n).len() > 0,
        is_digit(grouped_text(n)[0]),
        forall|k: int|
            0 <= k < grouped_text(n).len() ==> is_digit(#[trigger] grouped_text(n)[k])
                || is_separator(grouped_text(n)[k]),
    decreases n,
{
    if n < 1000 {
        lemma_decimal(n);
    } else {
        let r = n % 1000;
        let a = grouped_text(n / 1000);
        lemma_grouped_text(n / 1000);
        let (d2, d1, d0) = (r / 100, (r / 10) % 10, r % 10);
        lemma_digit_char(d2);
        lemma_digit_char(d1);
        lemma_digit_char(d0);
        let c2 = digit_char(d2);
        let c1 = digit_char(d1);
        let c0 = digit_char(d0);
        lemma_value_push(a, ',');
        lemma_value_push(a.push(','), c2);
        lemma_value_push(a.push(',').push(c2), c1);
        lemma_value_push(a.push(',').push(c2).push(c1), c0);
        assert(grouped_text(n) =~= a.push(',').push(c2).push(c1).push(c0));
        assert(d2 * 100 + d1 * 10 + d0 == r);
        assert(grouped_value(grouped_text(n)) == n) by (nonlinear_arith)
            requires
                grouped_value(grouped_text(n)) == ((grouped_value(a) * 10 + d2) * 10 + d1) * 10 + d0,
                grouped_value(a) == n / 1000,
                d2 * 100 + d1 * 10 + d0 == n % 1000,
        ;
    }
}

/// A count printed with comma grouping reads back as the same count.
pub proof fn lemma_grouping_round_trip(n: u64)
    ensures
        grouped_u64(grouped_text(n as nat)) == Some(n),
{
    lemma_grouped_text(n as nat);
    assert(is_grouped_number(grouped_text(n as nat)));
}

proof fn lemma_pow1024_values()
    ensures
        pow1024(0) == 1,
        pow1024(1) == 1024,
        pow1024(2) == 1048576,
        pow1024(3) == 1073741824,
        pow1024(4) == 1099511627776,
        pow1024(5) == 1125899906842624,
        pow1024(6) == 1152921504606846976,
{
    reveal_with_fuel(pow1024, 7);
}

fn digit_of(d: u64) -> (c: char)
    requires
        d < 10,
    ensures
        c == digit_char(d as nat),
{
    match d {
        0 => '0',
        1 => '1',
        2 => '2',
        3 => '3',
        4 => '4',
        5 => '5',
        6 => '6',
        7 => '7',
        8 => '8',
        _ => '9',
    }
}

fn push_decimal(out: &mut Vec<char>, n: u64)
    ensures
        final(out)@ == old(out)@ + decimal(n as nat),
    decreases n,
{
    if n >= 10 {
        push_decimal(out, n / 10);
    }
    out.push(digit_of(n % 10));
    assert(final(out)@ =~= old(out)@ + decimal(n as nat));
}

fn push_unit(out: &mut Vec<char>, i: u64)
    requires
        i <= 6,
    ensures
        final(out)@ == old(out)@ + unit_name(i as nat),
{
    if i == 0 {
        out.push('B');
    } else {
        let c = if i == 1 {
            'K'
        } else if i == 2 {
            'M'
        } else if i == 3 {
            'G'
        } else if i == 4 {
            'T'
        } else if i == 5 {
            'P'
        } else {
            'E'
        };
        out.push(c);
        out.push('i');
        out.push('B');
    }
    assert(final(out)@ =~= old(out)@ + unit_name(i as nat));
}

/// Renders a byte count: `0 B`, `512 B`, `1.5 KiB`, `2.0 MiB`.
pub fn format_bytes(bytes: u64) -> (r: String)
    ensures
        r@ == bytes_text(bytes as nat),
{
    proof {
        lemma_pow1024_values();
    }
    let mut i: u64 = 0;
    let mut scale: u64 = 1;
    while i < 6 && scale * 1024 <= bytes
        invariant
            i <= 6,
            scale as nat == pow1024(i as nat),
            pow1024(i as nat) <= bytes || i == 0,
            unit_from(bytes as nat, 0) == unit_from(bytes as nat, i as nat),
            i <= 5 ==> scale <= 1125899906842624,
            pow1024(0) == 1,
            pow1024(1) == 1024,
            pow1024(2) == 1048576,
            pow1024(3) == 1073741824,
            pow1024(4) == 1099511627776,
            pow1024(5) == 1125899906842624,
            pow1024(6) == 1152921504606846976,
        decreases 6 - i,
    {
        scale = scale * 1024;
        i = i + 1;
    }
    assert(unit_index(bytes as nat) == i);
    let mut out: Vec<char> = Vec::new();
    if i == 0 {
        push_decimal(&mut out, bytes);
        out.push(' ');
        push_unit(&mut out, 0);
        assert(out@ =~= bytes_text(bytes as nat));
    } else {
        let n: u128 = bytes as u128 * 10;
        let d: u128 = scale as u128;
        let q: u128 = n / d;
        let rem: u128 = n % d;
        let t: u128 = if 2 * rem > d || (2 * rem == d && q % 2 == 1) {
            q + 1
        } else {
            q
        };
        assert(t as nat == div_round_even(bytes as nat * 10, pow1024(i as nat)));
        assert(q * d <= n) by (nonlinear_arith)
            requires
                d > 0,
                q == n / d,
        ;
        assert(t <= n) by (nonlinear_arith)
            requires
                d >= 1024,
                n >= d,
                q * d <= n,
                t <= q + 1,
        ;
        let whole = (t / 10) as u64;
        let tenth = (t % 10) as u64;
        push_decimal(&mut out, whole);
        out.push('.');
        out.push(digit_of(tenth));
        out.push(' ');
        push_unit(&mut out, i);
        assert(out@ =~= bytes_text(bytes as nat));
    }
    string_from_chars(&out)
}

} // verus!
