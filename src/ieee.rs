//! Encoding of integers as IEEE-754 binary32 bit patterns, as the note frame
//! carries them.

use vstd::prelude::*;

verus! {

/// 2 to the power `n`.
pub open spec fn two_pow(n: nat) -> nat
    decreases n,
{
    if n == 0 {
        1
    } else {
        2 * two_pow((n - 1) as nat)
    }
}

/// The largest `e` with `2^e <= v` (zero for `v < 2`).
pub open spec fn floor_log2(v: nat) -> nat
    decreases v,
{
    if v < 2 {
        0
    } else {
        1 + floor_log2(v / 2)
    }
}

/// The binary32 bit pattern nearest to the natural number `v`, ties to an even
/// significand. Exact for every `v < 2^24`.
pub open spec fn single_bits_of_nat(v: nat) -> nat {
    if v == 0 {
        0
    } else {
        let e = floor_log2(v);
        if e <= 23 {
            ((127 + e) * two_pow(23) + (v * two_pow((23 - e) as nat) - two_pow(23))) as nat
        } else {
            let p = two_pow((e - 23) as nat);
            let m = v / p;
            let r = v % p;
            let up = r * 2 > p || (r * 2 == p && m % 2 == 1);
            let m2 = if up { m + 1 } else { m };
            if m2 == two_pow(24) {
                ((128 + e) * two_pow(23)) as nat
            } else {
                ((127 + e) * two_pow(23) + (m2 - two_pow(23))) as nat
            }
        }
    }
}

/// The binary32 bit pattern nearest to the integer `v` (sign and magnitude).
pub open spec fn single_bits_of_int(v: int) -> nat {
    if v < 0 {
        two_pow(31) + single_bits_of_nat((-v) as nat)
    } else {
        single_bits_of_nat(v as nat)
    }
}

proof fn lemma_two_pow_pos(n: nat)
    ensures
        two_pow(n) >= 1,
    decreases n,
{
    if n > 0 {
        lemma_two_pow_pos((n - 1) as nat);
    }
}

proof fn lemma_two_pow_adds(a: nat, b: nat)
    ensures
        two_pow(a + b) == two_pow(a) * two_pow(b),
    decreases a,
{
    if a > 0 {
        lemma_two_pow_adds((a - 1) as nat, b);
        assert(two_pow(a + b) == 2 * two_pow((a - 1 + b) as nat));
        let x = two_pow((a - 1) as nat);
        let y = two_pow(b);
        assert(two_pow(a) * y == 2 * (x * y)) by (nonlinear_arith)
            requires
                two_pow(a) == 2 * x,
        ;
    } else {
        assert(two_pow(0) == 1);
        assert(a + b == b);
    }
}

proof fn lemma_two_pow_values()
    ensures
        two_pow(23) == 0x80_0000,
        two_pow(24) == 0x100_0000,
        two_pow(31) == 0x8000_0000,
        two_pow(63) == 0x8000_0000_0000_0000,
        two_pow(64) == 0x1_0000_0000_0000_0000,
{
    reveal_with_fuel(two_pow, 65);
}

proof fn lemma_two_pow_monotone(a: nat, b: nat)
    requires
        a <= b,
    ensures
        two_pow(a) <= two_pow(b),
{
    lemma_two_pow_adds(a, (b - a) as nat);
    lemma_two_pow_pos(a);
    lemma_two_pow_pos((b - a) as nat);
    assert(two_pow(a) <= two_pow(a) * two_pow((b - a) as nat)) by (nonlinear_arith)
        requires
            two_pow((b - a) as nat) >= 1,
    ;
}

proof fn lemma_floor_log2(v: nat, e: nat)
    requires
        two_pow(e) <= v < two_pow(e + 1),
    ensures
        floor_log2(v) == e,
    decreases e,
{
    if e > 0 {
        assert(two_pow(e) == 2 * two_pow((e - 1) as nat));
        assert(two_pow(e + 1) == 2 * two_pow(e));
        lemma_floor_log2(v / 2, (e - 1) as nat);
    } else {
        assert(two_pow(1) == 2) by {
            reveal_with_fuel(two_pow, 2);
        }
    }
}

/// `2^n` as a machine word.
fn two_pow_u64(n: u32) -> (r: u64)
    requires
        n < 64,
    ensures
        r == two_pow(n as nat),
{
    let mut r: u64 = 1;
    let mut i: u32 = 0;
    while i < n
        invariant
            i <= n < 64,
            r == two_pow(i as nat),
        decreases n - i,
    {
        proof {
            lemma_two_pow_monotone((i + 1) as nat, 63);
            lemma_two_pow_values();
        }
        r = r * 2;
        i = i + 1;
    }
    r
}

/// Encodes a nonnegative integer as the nearest binary32 value.
pub fn single_bits_of_u64(v: u64) -> (r: u32)
    ensures
        r as nat == single_bits_of_nat(v as nat),
{
    if v == 0 {
        return 0;
    }
    proof {
        lemma_two_pow_values();
    }
    let mut e: u32 = 0;
    let mut p: u64 = 1;
    while p <= v / 2
        invariant
            1 <= p <= v,
            p == two_pow(e as nat),
            e < 64,
        decreases v - p,
    {
        proof {
            lemma_two_pow_values();
            if e >= 63 {
                lemma_two_pow_monotone(63, e as nat);
            }
            assert(two_pow((e + 1) as nat) == 2 * two_pow(e as nat));
        }
        p = p * 2;
        e = e + 1;
    }
    assert(two_pow((e + 1) as nat) == 2 * p);
    proof {
        lemma_floor_log2(v as nat, e as nat);
    }
    if e <= 23 {
        let q = two_pow_u64(23 - e);
        proof {
            lemma_two_pow_pos((23 - e) as nat);
            lemma_two_pow_adds((e + 1) as nat, (23 - e) as nat);
            assert(v * q < two_pow(24)) by (nonlinear_arith)
                requires
                    v < two_pow((e + 1) as nat),
                    two_pow(24) == two_pow((e + 1) as nat) * q,
                    q >= 1,
            ;
            lemma_two_pow_adds(e as nat, (23 - e) as nat);
            assert(v * q >= two_pow(23)) by (nonlinear_arith)
                requires
                    v >= p,
                    two_pow(23) == p * q,
                    q >= 1,
            ;
        }
        let mant: u64 = v * q;
        let bits: u64 = (127 + e as u64) * 0x80_0000 + (mant - 0x80_0000);
        bits as u32
    } else {
        let scale = two_pow_u64(e - 23);
        proof {
            lemma_two_pow_pos((e - 23) as nat);
            lemma_two_pow_adds(23, (e - 23) as nat);
            lemma_two_pow_adds(24, (e - 23) as nat);
        }
        let m: u64 = v / scale;
        let rem: u64 = v % scale;
        proof {
            assert(m * scale + rem == v && rem < scale) by (nonlinear_arith)
                requires
                    m == v / scale,
                    rem == v % scale,
                    scale > 0,
            ;
            assert(m >= 0x80_0000) by (nonlinear_arith)
                requires
                    m * scale + rem == v,
                    rem < scale,
                    v >= 0x80_0000 * scale,
                    scale > 0,
            ;
            assert(m < 0x100_0000) by (nonlinear_arith)
                requires
                    m * scale + rem == v,
                    rem >= 0,
                    v < 0x100_0000 * scale,
                    scale > 0,
            ;
        }
        let up = rem > scale - rem || (rem == scale - rem && m % 2 == 1);
        let m2: u64 = if up { m + 1 } else { m };
        if m2 == 0x100_0000 {
            let bits: u64 = (128 + e as u64) * 0x80_0000;
            bits as u32
        } else {
            let bits: u64 = (127 + e as u64) * 0x80_0000 + (m2 - 0x80_0000);
            bits as u32
        }
    }
}

/// Encodes a signed integer as the nearest binary32 value.
pub fn single_bits_of_i64(v: i64) -> (r: u32)
    ensures
        r as nat == single_bits_of_int(v as int),
{
    if v < 0 {
        let mag: u64 = if v == i64::MIN {
            0x8000_0000_0000_0000
        } else {
            (-v) as u64
        };
        let b = single_bits_of_u64(mag);
        proof {
            lemma_two_pow_values();
            lemma_single_bits_bound(mag as nat);
        }
        b + 0x8000_0000
    } else {
        single_bits_of_u64(v as u64)
    }
}

proof fn lemma_floor_log2_range(v: nat)
    requires
        v >= 1,
    ensures
        two_pow(floor_log2(v)) <= v < two_pow(floor_log2(v) + 1),
    decreases v,
{
    if v >= 2 {
        lemma_floor_log2_range(v / 2);
        let e = floor_log2(v / 2);
        assert(two_pow(e + 1) == 2 * two_pow(e));
        assert(two_pow(e + 2) == 2 * two_pow(e + 1));
    } else {
        assert(two_pow(1) == 2) by {
            reveal_with_fuel(two_pow, 2);
        }
    }
}

proof fn lemma_single_bits_bound(v: nat)
    requires
        v < 0x1_0000_0000_0000_0000,
    ensures
        single_bits_of_nat(v) < 0x8000_0000,
{
    lemma_two_pow_values();
    if v > 0 {
        let e = floor_log2(v);
        lemma_floor_log2_range(v);
        if e > 63 {
            lemma_two_pow_monotone(64, e);
        }
        if e <= 23 {
            let q = two_pow((23 - e) as nat);
            lemma_two_pow_pos((23 - e) as nat);
            lemma_two_pow_adds((e + 1) as nat, (23 - e) as nat);
            assert(v * q < two_pow(24)) by (nonlinear_arith)
                requires
                    q >= 1,
                    v < two_pow((e + 1) as nat),
                    two_pow(24) == two_pow((e + 1) as nat) * q,
            ;
        } else {
            let p = two_pow((e - 23) as nat);
            lemma_two_pow_pos((e - 23) as nat);
            lemma_two_pow_adds(24, (e - 23) as nat);
            let m = v / p;
            assert(m < 0x100_0000) by (nonlinear_arith)
                requires
                    m == v / p,
                    v < 0x100_0000 * p,
                    p > 0,
            ;
        }
    }
}

/// Dividing by `2^(b+1)` is dividing by `2^b`, then by two.
pub proof fn lemma_div_two_pow_step(v: nat, b: nat)
    ensures
        v / two_pow(b + 1) == (v / two_pow(b)) / 2,
{
    lemma_two_pow_pos(b);
    let p = two_pow(b);
    assert(two_pow(b + 1) == 2 * p);
    vstd::arithmetic::div_mod::lemma_div_denominator(v as int, p as int, 2);
}

} // verus!
