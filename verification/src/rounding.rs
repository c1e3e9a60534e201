use vstd::prelude::*;
use vstd::arithmetic::div_mod::{lemma_div_is_ordered, lemma_fundamental_div_mod, lemma_mod_bound};

verus! {

/// `2` to the power `n`.
pub open spec fn two_to(n: nat) -> nat
    decreases n,
{
    if n == 0 { 1 } else { 2 * two_to((n - 1) as nat) }
}

/// The exponent of the highest power of two not above `x`, for `x >= 1`
/// (and 0 for `x` below 2).
pub open spec fn floor_log2(x: nat) -> nat
    decreases x,
{
    if x < 2 { 0 } else { 1 + floor_log2(x / 2) }
}

/// `a / b` rounded to the nearest whole number, a half to the even one.
pub open spec fn round_half_even(a: nat, b: nat) -> nat {
    let q = a / b;
    let r = a % b;
    if 2 * r > b {
        q + 1
    } else if 2 * r < b {
        q
    } else if q % 2 == 0 {
        q
    } else {
        q + 1
    }
}

/// The fraction bits that a single-precision float keeps below the units of
/// a value whose whole part `w` is at least 1 and below `2^24`: together
/// with the bits of `w` they make 24 significant bits.
pub open spec fn frac_bits(w: nat) -> nat {
    (23 - floor_log2(w)) as nat
}

/// The single-precision float nearest to `a / b` (ties to even), for
/// `1 <= a / b < 2^24`, given as its numerator over
/// `two_to(frac_bits(a / b))`. IEEE 754 rounds a quotient this way, and a
/// product too when `a / b` is that product written as a fraction.
pub open spec fn f32_numerator(a: nat, b: nat) -> nat {
    round_half_even(a * two_to(frac_bits(a / b)), b)
}

/// Powers of two are positive, and their exponents add.
pub proof fn lemma_two_to_add(a: nat, b: nat)
    ensures
        two_to(a) >= 1,
        two_to(a + b) == two_to(a) * two_to(b),
    decreases a,
{
    if a > 0 {
        lemma_two_to_add((a - 1) as nat, b);
        assert(two_to(a + b) == 2 * two_to((a - 1 + b) as nat));
        assert(2 * (two_to((a - 1) as nat) * two_to(b)) == (2 * two_to((a - 1) as nat)) * two_to(b))
            by (nonlinear_arith);
    } else {
        assert(two_to(0) == 1);
        assert(two_to(a + b) == two_to(b));
    }
}

/// Powers of two grow with the exponent.
pub proof fn lemma_two_to_mono(a: nat, b: nat)
    requires
        a <= b,
    ensures
        two_to(a) <= two_to(b),
{
    lemma_two_to_add(a, (b - a) as nat);
    lemma_two_to_add((b - a) as nat, 0);
    assert(two_to(a) * 1 <= two_to(a) * two_to((b - a) as nat)) by (nonlinear_arith)
        requires two_to((b - a) as nat) >= 1, two_to(a) >= 1;
}

/// `x` lies between `2^floor_log2(x)` and the next power of two.
pub proof fn lemma_floor_log2_bounds(x: nat)
    requires
        x >= 1,
    ensures
        two_to(floor_log2(x)) <= x < two_to(floor_log2(x) + 1),
    decreases x,
{
    if x >= 2 {
        lemma_floor_log2_bounds(x / 2);
        let e = floor_log2(x / 2);
        assert(floor_log2(x) == e + 1);
        assert(two_to(e + 1) == 2 * two_to(e));
        assert(two_to(e + 2) == 2 * two_to(e + 1));
    } else {
        reveal_with_fuel(two_to, 2);
    }
}

/// A value below `2^n` has its highest bit below `n`.
pub proof fn lemma_floor_log2_below(x: nat, n: nat)
    requires
        1 <= x < two_to(n),
    ensures
        floor_log2(x) < n,
{
    lemma_floor_log2_bounds(x);
    if floor_log2(x) >= n {
        lemma_two_to_mono(n, floor_log2(x));
    }
}

/// The powers of two that bound the values rounded here.
pub proof fn lemma_two_to_table()
    ensures
        two_to(8) == 0x100,
        two_to(16) == 0x1_0000,
        two_to(23) == 0x80_0000,
        two_to(24) == 0x100_0000,
{
    reveal_with_fuel(two_to, 25);
}

/// Computes `two_to(n)`.
pub fn two_to_exec(n: u64) -> (r: u64)
    requires
        n <= 24,
    ensures
        r == two_to(n as nat),
{
    let mut r: u64 = 1;
    let mut i: u64 = 0;
    while i < n
        invariant
            i <= n <= 24,
            r == two_to(i as nat),
        decreases n - i,
    {
        proof {
            lemma_two_to_mono(i as nat, 24);
            lemma_two_to_table();
        }
        r = r * 2;
        i = i + 1;
    }
    r
}

/// Computes `floor_log2(x)`.
pub fn floor_log2_exec(x: u64) -> (r: u64)
    ensures
        r == floor_log2(x as nat),
{
    let mut y: u64 = x;
    let mut r: u64 = 0;
    while y >= 2
        invariant
            r + y <= x,
            r + floor_log2(y as nat) == floor_log2(x as nat),
        decreases y,
    {
        y = y / 2;
        r = r + 1;
    }
    r
}

/// The rounded quotient lies between the quotient and one more.
pub proof fn lemma_round_half_even(a: nat, b: nat)
    requires
        b > 0,
    ensures
        a / b <= round_half_even(a, b) <= a / b + 1,
{
}

/// A quotient rounded to single precision keeps at most 24 significant
/// bits: its numerator is at most `2^24`.
pub proof fn lemma_f32_numerator_bound(a: nat, b: nat)
    requires
        b > 0,
        1 <= a / b < two_to(24),
    ensures
        f32_numerator(a, b) <= two_to(24),
{
    let w = a / b;
    let e = floor_log2(w);
    lemma_floor_log2_bounds(w);
    lemma_floor_log2_below(w, 24);
    let k = frac_bits(w);
    assert(k + e + 1 == 24);
    lemma_two_to_add(e + 1, k);
    assert(two_to(e + 1 + k) == two_to(24));
    lemma_fundamental_div_mod(a as int, b as int);
    lemma_mod_bound(a as int, b as int);
    lemma_two_to_add(k, 0);
    let big = two_to(e + 1);
    let scale = two_to(k);
    let x = a * scale;
    assert(a < b * big) by (nonlinear_arith)
        requires a == b * w + a % b, a % b < b, w + 1 <= big, b > 0;
    assert(x < b * two_to(24)) by (nonlinear_arith)
        requires a < b * big, x == a * scale, big * scale == two_to(24), scale >= 1;
    lemma_fundamental_div_mod(x as int, b as int);
    lemma_mod_bound(x as int, b as int);
    assert(x / b < two_to(24)) by (nonlinear_arith)
        requires x == b * (x / b) + x % b, x % b >= 0, x < b * two_to(24), b > 0;
    lemma_round_half_even(x, b);
}

/// Computes `round_half_even(a, b)`.
pub fn round_half_even_exec(a: u64, b: u64) -> (r: u64)
    requires
        b > 0,
        a / b < u64::MAX,
    ensures
        r == round_half_even(a as nat, b as nat),
{
    let q = a / b;
    let rem = a % b;
    if rem > b - rem {
        q + 1
    } else if rem < b - rem {
        q
    } else if q % 2 == 0 {
        q
    } else {
        q + 1
    }
}

/// Computes `f32_numerator(a, b)` and the fraction bits it is taken over.
pub fn f32_numerator_exec(a: u64, b: u64) -> (r: (u64, u64))
    requires
        b > 0,
        a / b < two_to(24),
        a < 0x100_0000_0000,
    ensures
        r.0 == f32_numerator(a as nat, b as nat),
        r.1 == frac_bits((a / b) as nat),
        r.1 <= 23,
        a / b >= 1 ==> r.0 <= two_to(24),
{
    let w = a / b;
    let e = floor_log2_exec(w);
    proof {
        if w >= 1 {
            lemma_floor_log2_below(w as nat, 24);
        }
    }
    let k = 23 - e;
    let scale = two_to_exec(k);
    proof {
        lemma_two_to_mono(k as nat, 23);
        lemma_two_to_table();
    }
    assert(a * scale < 0x8000_0000_0000_0000) by (nonlinear_arith)
        requires a < 0x100_0000_0000, scale <= 0x80_0000;
    let x = a * scale;
    proof {
        lemma_div_is_ordered(x as int, 0xffff_ffff_ffff_fffe, b as int);
        assert(0xffff_ffff_ffff_fffeu64 / b <= 0xffff_ffff_ffff_fffe) by (nonlinear_arith)
            requires b >= 1;
        if w >= 1 {
            lemma_f32_numerator_bound(a as nat, b as nat);
        }
    }
    let r = round_half_even_exec(x, b);
    (r, k)
}

} // verus!
