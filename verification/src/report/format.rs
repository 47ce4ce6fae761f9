//! Human-readable sizes and durations for reports.
//!
//! Sizes above a kilobyte and durations below a minute are shown with two
//! decimals, exactly as the nearest IEEE double of the value prints with
//! `{:.2}`: the double is taken as an integer mantissa over a power of two,
//! and its hundredths are rounded to nearest, halves to even.

use vstd::prelude::*;
use vstd::arithmetic::power2::{
    pow2, lemma_pow2_unfold, lemma_pow2_pos, lemma_pow2_strictly_increases, lemma_pow2_adds,
    lemma2_to64, lemma2_to64_rest,
};
use crate::text::{push_char, push_decimal_u128, decimal};
use crate::recovery::progress::two_digits;

verus! {

/// `n / d` rounded to the nearest integer, halves to the even one.
pub open spec fn round_half_even(n: nat, d: nat) -> nat {
    let q = n / d;
    let r = n % d;
    if 2 * r > d || (2 * r == d && q % 2 == 1) { q + 1 } else { q }
}

/// The number of binary digits of `x` (0 for 0).
pub open spec fn bit_length(x: nat) -> nat
    decreases x,
{
    if x == 0 { 0 } else { 1 + bit_length(x / 2) }
}

/// `x` has at most `n` binary digits exactly when it is below `2^n`.
pub proof fn lemma_bit_length_bounds(x: nat, n: nat)
    ensures
        x < pow2(n) ==> bit_length(x) <= n,
        pow2(n) <= x ==> n + 1 <= bit_length(x),
    decreases x,
{
    lemma_pow2_pos(n);
    if n == 0 {
        lemma2_to64();
    }
    if x > 0 && n > 0 {
        lemma_pow2_unfold(n);
        lemma_bit_length_bounds(x / 2, (n - 1) as nat);
    }
}

fn round_half_even_u128(n: u128, d: u128) -> (r: u128)
    requires
        d > 0,
    ensures
        r == round_half_even(n as nat, d as nat),
        r <= n / d + 1,
{
    let q = n / d;
    let rem = n % d;
    if rem > d - rem || (rem == d - rem && q % 2 == 1) {
        assert(d >= 2);
        assert(q <= n / 2) by (nonlinear_arith)
            requires
                d >= 2,
                q == n / d,
        ;
        q + 1
    } else {
        q
    }
}

proof fn lemma_pow2_bound_128(e: nat)
    requires
        e <= 100,
    ensures
        pow2(e) <= pow2(100),
        pow2(100) == 0x10_0000_0000_0000_0000_0000_0000,
{
    lemma2_to64();
    lemma2_to64_rest();
    lemma_pow2_adds(64, 36);
    if e < 100 {
        lemma_pow2_strictly_increases(e, 100);
    }
}

fn pow2_u128(e: u32) -> (p: u128)
    requires
        e <= 100,
    ensures
        p == pow2(e as nat),
{
    let mut p: u128 = 1;
    let mut i: u32 = 0;
    proof {
        lemma2_to64();
    }
    while i < e
        invariant
            i <= e <= 100,
            p == pow2(i as nat),
        decreases e - i,
    {
        proof {
            lemma_pow2_unfold((i + 1) as nat);
            lemma_pow2_bound_128((i + 1) as nat);
        }
        p = p * 2;
        i = i + 1;
    }
    p
}

fn bit_length_u128(x: u128) -> (r: u32)
    ensures
        r == bit_length(x as nat),
        r <= 128,
{
    let mut t = x;
    let mut len: u32 = 0;
    proof {
        lemma2_to64();
        lemma_pow2_adds(64, 64);
        lemma_bit_length_bounds(x as nat, 128);
    }
    while t > 0
        invariant
            bit_length(x as nat) == len + bit_length(t as nat),
            bit_length(x as nat) <= 128,
        decreases t,
    {
        t = t / 2;
        len = len + 1;
    }
    len
}

/// Two decimals: the integer part of `h / 100`, a dot, and two digits.
pub open spec fn fixed2(h: nat) -> Seq<char> {
    decimal(h / 100) + seq!['.'] + two_digits(h % 100)
}

fn push_fixed2(s: &mut String, h: u128)
    ensures
        final(s)@ == old(s)@ + fixed2(h as nat),
{
    push_decimal_u128(s, h / 100);
    push_char(s, '.');
    let f = h % 100;
    if f < 10 {
        push_char(s, '0');
    }
    push_decimal_u128(s, f);
    proof {
        if f < 10 {
            assert(seq!['0'] + decimal(f as nat) == two_digits(f as nat));
        }
        assert(final(s)@ =~= old(s)@ + fixed2(h as nat)) by {
            assert(fixed2(h as nat) =~= decimal((h / 100) as nat) + seq!['.'] + two_digits(f as nat));
        }
    }
}

// ---------------------------------------------------------------- durations

/// The binary scale `s` that puts `k / 1000` (k ≥ 1) between `2^52` and `2^53`
/// once multiplied by `2^s`: 115 minus the bit length of `⌊k·2^62 / 1000⌋`.
pub open spec fn millis_scale(k: nat) -> nat {
    (115 - bit_length(k * pow2(62) / 1000)) as nat
}

/// The hundredths that `{:.2}` prints for the double nearest `k / 1000`: that
/// double is `m / 2^s` with `m` the nearest integer to `k·2^s / 1000`.
pub open spec fn millis_hundredths(k: nat) -> nat {
    if k == 0 {
        0
    } else {
        let s = millis_scale(k);
        round_half_even(round_half_even(k * pow2(s), 1000) * 100, pow2(s))
    }
}

/// `<h> 時間 <m> 分 <s> 秒` from an hour on, `<m> 分 <s> 秒` from a minute on,
/// seconds with two decimals below a minute, and `0 秒` for a negative span.
pub open spec fn duration_text(ms: int) -> Seq<char> {
    if ms < 0 {
        seq!['0', ' ', '秒']
    } else if ms / 1000 < 60 {
        fixed2(millis_hundredths(ms as nat)) + seq![' ', '秒']
    } else {
        let total = ms / 1000;
        let hours = total / 3600;
        let minutes = (total % 3600) / 60;
        let seconds = total % 60;
        if hours > 0 {
            decimal(hours as nat) + seq![' ', '時', '間', ' '] + decimal(minutes as nat) + seq![' ', '分', ' ']
                + decimal(seconds as nat) + seq![' ', '秒']
        } else {
            decimal(minutes as nat) + seq![' ', '分', ' '] + decimal(seconds as nat) + seq![' ', '秒']
        }
    }
}

fn millis_hundredths_exec(k: u64) -> (h: u128)
    requires
        k < 60_000,
    ensures
        h == millis_hundredths(k as nat),
{
    if k == 0 {
        return 0;
    }
    proof {
        lemma2_to64();
        lemma2_to64_rest();
        lemma_pow2_adds(64, 14);
    }
    let p62 = pow2_u128(62);
    let x = (k as u128) * p62 / 1000;
    assert(x >= 4_503_599_627_370_496 && x < 0x4000_0000_0000_0000_0000) by (nonlinear_arith)
        requires
            1 <= k < 60_000,
            p62 == 0x4000_0000_0000_0000,
            x == (k as u128) * p62 / 1000,
    ;
    proof {
        lemma_bit_length_bounds(x as nat, 52);
        lemma_bit_length_bounds(x as nat, 78);
    }
    let len = bit_length_u128(x);
    let s = 115 - len;
    assert(s <= 62);
    let ps = pow2_u128(s);
    proof {
        if s < 62 {
            lemma_pow2_strictly_increases(s as nat, 62);
        }
    }
    assert((k as u128) * ps < 60_000 * 0x4000_0000_0000_0000) by (nonlinear_arith)
        requires
            k < 60_000,
            ps <= 0x4000_0000_0000_0000,
    ;
    let ks = (k as u128) * ps;
    let m = round_half_even_u128(ks, 1000);
    proof {
        lemma_pow2_pos(s as nat);
    }
    round_half_even_u128(m * 100, ps)
}

/// Milliseconds as a duration for people: seconds with two decimals below a
/// minute, whole minutes and seconds below an hour, then hours as well.
pub fn format_duration_ms(ms: i64) -> (r: String)
    ensures
        r@ == duration_text(ms as int),
{
    let mut s = String::new();
    if ms < 0 {
        push_char(&mut s, '0');
        push_char(&mut s, ' ');
        push_char(&mut s, '秒');
        proof {
            assert(s@ =~= duration_text(ms as int));
        }
        return s;
    }
    let total = ms / 1000;
    if total < 60 {
        let h = millis_hundredths_exec(ms as u64);
        push_fixed2(&mut s, h);
        push_char(&mut s, ' ');
        push_char(&mut s, '秒');
        proof {
            assert(s@ =~= duration_text(ms as int));
        }
        return s;
    }
    let hours = (total / 3600) as u128;
    let minutes = ((total % 3600) / 60) as u128;
    let seconds = (total % 60) as u128;
    if hours > 0 {
        push_decimal_u128(&mut s, hours);
        push_char(&mut s, ' ');
        push_char(&mut s, '時');
        push_char(&mut s, '間');
        push_char(&mut s, ' ');
    }
    push_decimal_u128(&mut s, minutes);
    push_char(&mut s, ' ');
    push_char(&mut s, '分');
    push_char(&mut s, ' ');
    push_decimal_u128(&mut s, seconds);
    push_char(&mut s, ' ');
    push_char(&mut s, '秒');
    proof {
        assert(s@ =~= duration_text(ms as int));
    }
    s
}

// ---------------------------------------------------------------- sizes

/// `b as f64`: `b` itself when it has at most 53 binary digits, otherwise
/// `b` rounded to 53 significant bits, halves to even.
pub open spec fn u64_to_f64(b: nat) -> nat {
    if bit_length(b) <= 53 {
        b
    } else {
        let sh = (bit_length(b) - 53) as nat;
        round_half_even(b, pow2(sh)) * pow2(sh)
    }
}

/// How many times a size `f ≥ 1024` is divided by 1024 before it drops below
/// 1024, at most five times (up to petabytes).
pub open spec fn byte_unit(f: nat) -> nat {
    if f >= pow2(50) {
        5
    } else if f >= pow2(40) {
        4
    } else if f >= pow2(30) {
        3
    } else if f >= pow2(20) {
        2
    } else {
        1
    }
}

/// The unit after `u` divisions by 1024.
pub open spec fn unit_name(u: nat) -> Seq<char> {
    if u == 0 {
        seq!['B']
    } else if u == 1 {
        seq!['K', 'B']
    } else if u == 2 {
        seq!['M', 'B']
    } else if u == 3 {
        seq!['G', 'B']
    } else if u == 4 {
        seq!['T', 'B']
    } else {
        seq!['P', 'B']
    }
}

/// `<n> B` below a kilobyte; otherwise the size as a double, scaled down by
/// 1024 per unit, with two decimals and its unit.
pub open spec fn bytes_text(b: nat) -> Seq<char> {
    if b < 1024 {
        decimal(b) + seq![' ', 'B']
    } else {
        let f = u64_to_f64(b);
        let u = byte_unit(f);
        fixed2(round_half_even(f * 100, pow2(10 * u))) + seq![' '] + unit_name(u)
    }
}

fn push_unit(s: &mut String, u: u32)
    requires
        1 <= u <= 5,
    ensures
        final(s)@ == old(s)@ + unit_name(u as nat),
{
    if u == 1 {
        push_char(s, 'K');
    } else if u == 2 {
        push_char(s, 'M');
    } else if u == 3 {
        push_char(s, 'G');
    } else if u == 4 {
        push_char(s, 'T');
    } else {
        push_char(s, 'P');
    }
    push_char(s, 'B');
    proof {
        assert(final(s)@ =~= old(s)@ + unit_name(u as nat));
    }
}

fn u64_to_f64_exec(b: u64) -> (f: u128)
    ensures
        f == u64_to_f64(b as nat),
        f <= 0x1_0000_0000_0000_0000 + 2048,
{
    let len = bit_length_u128(b as u128);
    if len <= 53 {
        return b as u128;
    }
    proof {
        lemma2_to64();
        lemma2_to64_rest();
        lemma_bit_length_bounds(b as nat, 64);
    }
    let sh = len - 53;
    assert(sh <= 11);
    let p = pow2_u128(sh);
    proof {
        if sh < 11 {
            lemma_pow2_strictly_increases(sh as nat, 11);
        }
        lemma_pow2_pos(sh as nat);
    }
    let m = round_half_even_u128(b as u128, p);
    assert(m * p <= (b as u128) + p) by (nonlinear_arith)
        requires
            p > 0,
            m <= (b as u128) / p + 1,
    ;
    m * p
}

/// A byte count for people: `127 B`, `5.44 KB`, `7.18 MB`, `2.00 GB`, ...
/// in steps of 1024 up to PB.
pub fn format_bytes(bytes: u64) -> (r: String)
    ensures
        r@ == bytes_text(bytes as nat),
{
    let mut s = String::new();
    if bytes < 1024 {
        push_decimal_u128(&mut s, bytes as u128);
        push_char(&mut s, ' ');
        push_char(&mut s, 'B');
        proof {
            assert(s@ =~= bytes_text(bytes as nat));
        }
        return s;
    }
    let f = u64_to_f64_exec(bytes);
    proof {
        lemma2_to64();
        lemma2_to64_rest();
    }
    let u: u32 = if f >= pow2_u128(50) {
        5
    } else if f >= pow2_u128(40) {
        4
    } else if f >= pow2_u128(30) {
        3
    } else if f >= pow2_u128(20) {
        2
    } else {
        1
    };
    let d = pow2_u128(10 * u);
    proof {
        lemma_pow2_pos((10 * u) as nat);
    }
    let h = round_half_even_u128(f * 100, d);
    push_fixed2(&mut s, h);
    push_char(&mut s, ' ');
    push_unit(&mut s, u);
    proof {
        assert(s@ =~= bytes_text(bytes as nat));
    }
    s
}

} // verus!
