//! Human-readable file sizes.
//!
//! The size is shown the way a binary64 float holding the byte count prints
//! with two decimals: the count is first rounded to 53 significant bits (ties
//! to even), divided by 1024 while it stays at least 1024 (at most three
//! times, which is exact), and the quotient is rounded to hundredths with ties
//! going to the even hundredth.  Everything here is computed on integers.

use vstd::prelude::*;
use crate::text::{decimal, decimal_string, digit, digit_char};

verus! {

/// Two to the power `e`.
pub open spec fn pow2(e: nat) -> nat
    decreases e,
{
    if e == 0 { 1 } else { 2 * pow2((e - 1) as nat) }
}

/// Two to the fifty-third: the first integer past the exact range of a float's significand.
pub open spec fn significand_limit() -> nat {
    9007199254740992
}

/// The number of low bits that a float drops from `b`, searching upwards from `e`.
pub open spec fn dropped_bits_from(b: nat, e: nat) -> nat
    decreases 64 - e,
{
    if e >= 64 || b / pow2(e) < significand_limit() {
        e
    } else {
        dropped_bits_from(b, e + 1)
    }
}

/// The value of `b` converted to a binary64 float (round to nearest, ties to even).
pub open spec fn float_value(b: nat) -> nat {
    let p = pow2(dropped_bits_from(b, 0));
    let q = b / p;
    let r = b % p;
    let up = r * 2 > p || (r * 2 == p && q % 2 == 1);
    (if up { q + 1 } else { q }) * p
}

/// Which unit a size is shown in: 0 for B, 1 for KB, 2 for MB, 3 for GB.
pub open spec fn size_unit(x: nat) -> nat {
    if x >= 1073741824 { 3 } else if x >= 1048576 { 2 } else if x >= 1024 { 1 } else { 0 }
}

/// The number of bytes in one unit.
pub open spec fn unit_divisor(k: nat) -> nat {
    if k == 3 { 1073741824 } else if k == 2 { 1048576 } else if k == 1 { 1024 } else { 1 }
}

/// The name of a unit.
pub open spec fn unit_name(k: nat) -> Seq<char> {
    if k == 3 { seq!['G', 'B'] } else if k == 2 { seq!['M', 'B'] } else if k == 1 { seq!['K', 'B'] } else { seq!['B'] }
}

/// `x / d` in hundredths, rounded to nearest with ties to the even hundredth.
pub open spec fn hundredths(x: nat, d: nat) -> nat {
    let q = (x * 100) / d;
    let r = (x * 100) % d;
    if r * 2 > d || (r * 2 == d && q % 2 == 1) { q + 1 } else { q }
}

/// The text that `format_size` gives for `bytes`.
pub open spec fn size_text(bytes: nat) -> Seq<char> {
    let x = float_value(bytes);
    let k = size_unit(x);
    let h = hundredths(x, unit_divisor(k));
    decimal(h / 100) + seq!['.', digit_char((h % 100) / 10), digit_char(h % 10), ' '] + unit_name(k)
}

proof fn lemma_pow2_mono(a: nat, b: nat)
    requires
        a <= b,
    ensures
        pow2(a) <= pow2(b),
    decreases b,
{
    if a < b {
        lemma_pow2_mono(a, (b - 1) as nat);
    }
}

proof fn lemma_pow2_12()
    ensures
        pow2(12) == 4096,
{
    reveal_with_fuel(pow2, 13);
}

/// `bytes` converted as a float would convert it, as an exact integer.
fn float_value_exec(bytes: u64) -> (x: u128)
    ensures
        x == float_value(bytes as nat),
        x <= 36893488147419103232,
{
    let b = bytes as u128;
    let mut p: u128 = 1;
    let ghost mut e: nat = 0;
    while b / p >= 9007199254740992
        invariant
            b == bytes,
            p == pow2(e),
            1 <= p <= 4096,
            e < 12,
            dropped_bits_from(bytes as nat, e) == dropped_bits_from(bytes as nat, 0),
        decreases 4096 - p,
    {
        proof {
            vstd::arithmetic::div_mod::lemma_fundamental_div_mod(b as int, p as int);
            assert(p * (b / p) >= p * 9007199254740992) by (nonlinear_arith)
                requires b / p >= 9007199254740992, p >= 1;
            assert(p < 2048);
            if e + 1 >= 12 {
                lemma_pow2_mono(12, e + 1);
                lemma_pow2_12();
            }
        }
        p = p * 2;
        proof { e = e + 1; }
    }
    assert(dropped_bits_from(bytes as nat, e) == e);
    let q = b / p;
    let r = b % p;
    proof {
        vstd::arithmetic::div_mod::lemma_fundamental_div_mod(b as int, p as int);
        assert(p * q <= b) by (nonlinear_arith) requires b == p * q + r, r >= 0;
    }
    let up = r * 2 > p || (r * 2 == p && q % 2 == 1);
    let qq = if up { q + 1 } else { q };
    proof {
        assert(qq * p <= 9007199254740992 * 4096) by (nonlinear_arith)
            requires qq <= 9007199254740992, p <= 4096;
    }
    qq * p
}

/// Formats a byte count as a size with two decimals and a unit (B, KB, MB or GB).
pub fn format_size(bytes: u64) -> (s: String)
    ensures
        s@ == size_text(bytes as nat),
{
    let x = float_value_exec(bytes);
    let d: u128 = if x >= 1073741824 { 1073741824 } else if x >= 1048576 { 1048576 } else if x >= 1024 { 1024 } else { 1 };
    let ghost k = size_unit(x as nat);
    assert(d == unit_divisor(k));
    let n = x * 100;
    let q = n / d;
    let r = n % d;
    let h = if r * 2 > d || (r * 2 == d && q % 2 == 1) { q + 1 } else { q };
    assert(h == hundredths(x as nat, d as nat));
    let mut s = decimal_string(h / 100);
    let frac = h % 100;
    s.push('.');
    s.push(digit(frac / 10));
    s.push(digit(frac % 10));
    s.push(' ');
    if x >= 1073741824 {
        s.push('G');
    } else if x >= 1048576 {
        s.push('M');
    } else if x >= 1024 {
        s.push('K');
    }
    s.push('B');
    assert(h % 10 == frac % 10);
    assert(s@ =~= size_text(bytes as nat));
    s
}


/// A size under 1024 bytes is shown in bytes, with two zero decimals.
pub proof fn lemma_small_sizes_in_bytes(bytes: nat)
    requires
        bytes < 1024,
    ensures
        size_text(bytes) == decimal(bytes) + seq!['.', '0', '0', ' ', 'B'],
{
    lemma_exact_counts_kept(bytes);
    assert(hundredths(bytes, 1) == bytes * 100);
    assert((bytes * 100) / 100 == bytes) by (nonlinear_arith);
    assert((bytes * 100) % 100 == 0) by (nonlinear_arith);
    assert((bytes * 100) % 10 == 0) by (nonlinear_arith);
}

/// Counts that a float holds exactly (below two to the fifty-third) are not altered.
pub proof fn lemma_exact_counts_kept(bytes: nat)
    requires
        bytes < 9007199254740992,
    ensures
        float_value(bytes) == bytes,
{
    assert(pow2(0) == 1);
    assert(bytes / 1 == bytes);
    assert(bytes % 1 == 0);
    assert(dropped_bits_from(bytes, 0) == 0);
}

/// The unit is the largest of B, KB, MB and GB that the size reaches.
pub proof fn lemma_unit_is_largest_reached(x: nat)
    ensures
        unit_divisor(size_unit(x)) <= x || x < 1024,
        size_unit(x) < 3 ==> x < unit_divisor(size_unit(x) + 1),
{
}

/// The hundredths shown are the nearest to the exact quotient: they are off
/// by at most half a hundredth, and a tie goes to an even count.
pub proof fn lemma_hundredths_nearest(x: nat, d: nat)
    requires
        d > 0,
    ensures
        2 * (hundredths(x, d) * d) <= 2 * (x * 100) + d,
        2 * (x * 100) <= 2 * (hundredths(x, d) * d) + d,
        2 * (hundredths(x, d) * d) == 2 * (x * 100) + d ==> hundredths(x, d) % 2 == 0,
        2 * (x * 100) == 2 * (hundredths(x, d) * d) + d ==> hundredths(x, d) % 2 == 0,
{
    let q = (x * 100) / d;
    let r = (x * 100) % d;
    vstd::arithmetic::div_mod::lemma_fundamental_div_mod((x * 100) as int, d as int);
    assert(x * 100 == q * d + r);
    assert((q + 1) * d == q * d + d) by (nonlinear_arith);
}

} // verus!
