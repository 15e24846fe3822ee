//! The word budget of a chunk. Text is measured in tokens, and a word is
//! taken to be 1.3 tokens; the budget is `(tokens as f32 / 1.3) as usize`,
//! computed here exactly, in integers, as single-precision arithmetic
//! rounds it.

use vstd::prelude::*;
use vstd::arithmetic::power2::{
    pow2, lemma2_to64, lemma_pow2_adds, lemma_pow2_pos, lemma_pow2_strictly_increases,
    lemma_pow2_unfold,
};

verus! {

/// The numerator of `a / 2^e` (for a fraction `a / b`).
pub open spec fn scaled_num(a: nat, e: int) -> nat {
    if e < 0 { a * pow2((-e) as nat) } else { a }
}

/// The denominator of `(a / b) / 2^e`.
pub open spec fn scaled_den(b: nat, e: int) -> nat {
    if e < 0 { b } else { b * pow2(e as nat) }
}

/// `2^23 <= (a / b) / 2^e < 2^24`: `e` is the exponent with which `a / b`
/// has a 24-bit significand, as in single precision.
pub open spec fn in_binade(a: nat, b: nat, e: int) -> bool {
    &&& 8388608 * scaled_den(b, e) <= scaled_num(a, e)
    &&& scaled_num(a, e) < 16777216 * scaled_den(b, e)
}

/// `n / d` rounded to the nearest integer, ties to even.
pub open spec fn round_half_even(n: nat, d: nat) -> nat {
    let q = n / d;
    let r = n % d;
    if 2 * r > d || (2 * r == d && q % 2 == 1) { q + 1 } else { q }
}

/// The exponent of the single-precision number nearest to `a / b`.
pub open spec fn nearest_f32_exponent(a: nat, b: nat) -> int {
    choose|e: int| in_binade(a, b, e)
}

/// The significand of the single-precision number nearest to `a / b`
/// (rounding to nearest, ties to even); the number is
/// `significand * 2^exponent`.
pub open spec fn nearest_f32_significand(a: nat, b: nat) -> nat {
    let e = nearest_f32_exponent(a, b);
    round_half_even(scaled_num(a, e), scaled_den(b, e))
}

/// `m * 2^e` rounded down to an integer.
pub open spec fn floor_scaled(m: nat, e: int) -> nat {
    if e >= 0 { m * pow2(e as nat) } else { m / pow2((-e) as nat) }
}

/// The single-precision value of `1.3` is `10905190 / 2^23`.
pub open spec fn one_point_three_significand() -> nat {
    10905190
}

/// `(n as f32 / 1.3) as usize`: `n` rounded to the nearest single-precision
/// number `m1 * 2^e1`, divided by `10905190 * 2^-23` with the quotient
/// rounded to the nearest single-precision number, truncated toward zero
/// and saturated at `usize::MAX`.
pub open spec fn tokens_to_words_spec(n: nat) -> nat {
    if n == 0 {
        0
    } else {
        let e1 = nearest_f32_exponent(n, 1);
        let m1 = nearest_f32_significand(n, 1);
        let a = m1 * pow2((e1 + 23) as nat);
        let b = one_point_three_significand();
        let w = floor_scaled(nearest_f32_significand(a, b), nearest_f32_exponent(a, b));
        if w > usize::MAX { usize::MAX as nat } else { w }
    }
}

/// A fraction has one single-precision exponent.
pub proof fn lemma_binade_unique(a: nat, b: nat, e1: int, e2: int)
    requires
        b > 0,
        in_binade(a, b, e1),
        in_binade(a, b, e2),
    ensures
        e1 == e2,
{
    if e1 != e2 {
        let (lo, hi) = if e1 < e2 { (e1, e2) } else { (e2, e1) };
        assert(in_binade(a, b, lo) && in_binade(a, b, hi));
        let d = (hi - lo) as nat;
        lemma_pow2_pos(d);
        lemma_pow2_strictly_increases(0, d);
        lemma2_to64();
        assert(pow2(d) >= 2);
        if lo >= 0 {
            lemma_pow2_adds(lo as nat, d);
            assert(pow2(hi as nat) == pow2(lo as nat) * pow2(d));
            let p = pow2(lo as nat);
            assert(scaled_den(b, hi) == b * (p * pow2(d)));
            assert(b * (p * pow2(d)) >= 2 * (b * p)) by (nonlinear_arith)
                requires
                    pow2(d) >= 2,
            ;
        } else if hi < 0 {
            lemma_pow2_adds((-hi) as nat, d);
            assert(pow2((-lo) as nat) == pow2((-hi) as nat) * pow2(d));
            let p = pow2((-hi) as nat);
            assert(scaled_num(a, lo) == a * (p * pow2(d)));
            assert(a * (p * pow2(d)) >= 2 * (a * p)) by (nonlinear_arith)
                requires
                    pow2(d) >= 2,
            ;
        } else {
            let pl = pow2((-lo) as nat);
            let ph = pow2(hi as nat);
            lemma_pow2_pos((-lo) as nat);
            lemma_pow2_pos(hi as nat);
            if hi == 0 {
                lemma_pow2_strictly_increases(0, (-lo) as nat);
                assert(pl >= 2);
                assert(scaled_num(a, lo) == a * pl);
                assert(scaled_den(b, hi) == b * 1);
                assert(a * pl >= 2 * a) by (nonlinear_arith)
                    requires
                        pl >= 2,
                ;
            } else {
                lemma_pow2_strictly_increases(0, hi as nat);
                assert(ph >= 2);
                assert(b * ph >= 2 * b) by (nonlinear_arith)
                    requires
                        ph >= 2,
                ;
                assert(a * pl >= a) by (nonlinear_arith)
                    requires
                        pl >= 1,
                ;
            }
        }
    }
}

/// `2^k` for `k <= 120`.
fn pow2_u128(k: u32) -> (r: u128)
    requires
        k <= 120,
    ensures
        r == pow2(k as nat),
{
    let mut r: u128 = 1;
    let mut i: u32 = 0;
    proof {
        lemma2_to64();
    }
    while i < k
        invariant
            i <= k <= 120,
            r == pow2(i as nat),
        decreases k - i,
    {
        proof {
            lemma_pow2_unfold((i + 1) as nat);
            lemma_pow2_strictly_increases((i + 1) as nat, 121);
            lemma_pow2_adds(64, 57);
            lemma2_to64();
            assert(pow2(57) < pow2(64)) by {
                lemma_pow2_strictly_increases(57, 64);
            }
            assert(pow2(121) <= 0xffff_ffff_ffff_ffff_ffff_ffff_ffff_ffff) by (nonlinear_arith)
                requires
                    pow2(121) == pow2(64) * pow2(57),
                    pow2(64) == 0x10000000000000000,
                    pow2(57) < pow2(64),
            ;
        }
        r = r * 2;
        i += 1;
    }
    r
}


/// Rounds `a / b` to single precision: returns the significand `m` and the
/// exponent `e` of the nearest single-precision number `m * 2^e`.
fn round_to_f32(a: u128, b: u128) -> (r: (u128, i32))
    requires
        0 < a < 0x1_0000_0000_0000_0000_0000_0000,
        0 < b < 0x1_0000_0000,
    ensures
        in_binade(a as nat, b as nat, r.1 as int),
        r.0 == round_half_even(scaled_num(a as nat, r.1 as int), scaled_den(b as nat, r.1 as int)),
        8388608 <= r.0 <= 16777216,
        -56 < r.1 < 96,
{
    proof {
        lemma2_to64();
        lemma_pow2_adds(64, 32);
    }
    let ghost big = pow2(96);
    assert(big == 0x1_0000_0000_0000_0000_0000_0000) by (nonlinear_arith)
        requires
            big == pow2(64) * pow2(32),
            pow2(64) == 0x10000000000000000,
            pow2(32) == 0x100000000,
    ;
    let mut e: i32 = 0;
    let sn: u128 = a;
    let mut sd: u128 = b;
    assert(b * pow2(0) == b) by (nonlinear_arith)
        requires
            pow2(0) == 1,
    ;
    // grow the denominator until the quotient is below 2^24
    while sn >= sd * 16777216
        invariant
            sn == a,
            0 < a < 0x1_0000_0000_0000_0000_0000_0000,
            sd >= 1,
            0 < b < 0x1_0000_0000,
            big == pow2(96),
            big == 0x1_0000_0000_0000_0000_0000_0000,
            0 <= e < 96,
            sd == scaled_den(b as nat, e as int),
            sd >= pow2(e as nat),
            e == 0 ==> sd == b,
            e == 0 || 8388608 * sd <= a,
        decreases a - sd,
    {
        proof {
            lemma2_to64();
            lemma_pow2_unfold((e + 1) as nat);
            assert(scaled_den(b as nat, e + 1) == b * pow2((e + 1) as nat));
            assert(b * pow2((e + 1) as nat) == 2 * (b * pow2(e as nat))) by (nonlinear_arith)
                requires
                    pow2((e + 1) as nat) == 2 * pow2(e as nat),
            ;
            if e + 1 == 96 {
                assert(pow2((e + 1) as nat) == big);
            }
        }
        sd = sd * 2;
        e = e + 1;
    }
    let ghost e_up = e;
    let mut sn2: u128 = sn;
    // grow the numerator until the quotient is at least 2^23
    while sn2 < sd * 8388608
        invariant
            0 < a < 0x1_0000_0000_0000_0000_0000_0000,
            0 < b < 0x1_0000_0000,
            sn2 >= 1,
            e <= e_up,
            e_up > 0 ==> e == e_up,
            -56 < e < 96,
            sn2 == scaled_num(a as nat, e as int),
            sd == scaled_den(b as nat, e as int),
            sn2 < sd * 16777216,
            e < 0 ==> sn2 >= pow2((-e) as nat),
            e_up > 0 ==> 8388608 * sd <= a,
            e <= 0 ==> sd == b,
        decreases sd * 16777216 - sn2,
    {
        proof {
            lemma2_to64();
            if e_up > 0 {
                assert(false);
            }
            lemma_pow2_unfold((-e + 1) as nat);
            if e == 0 {
                assert(pow2(0) == 1);
                assert(sd == b * 1);
            }
            assert(scaled_num(a as nat, e - 1) == a * pow2((-e + 1) as nat));
            assert(a * pow2((-e + 1) as nat) == 2 * scaled_num(a as nat, e as int)) by (nonlinear_arith)
                requires
                    pow2((-e + 1) as nat) == 2 * pow2((-e) as nat),
                    e < 0 ==> scaled_num(a as nat, e as int) == a * pow2((-e) as nat),
                    e == 0 ==> scaled_num(a as nat, e as int) == a,
                    e <= 0,
                    pow2(0) == 1,
            ;
            assert(sd == b);
            if -e + 1 >= 56 {
                if -e + 1 > 56 {
                    lemma_pow2_strictly_increases(56, (-e + 1) as nat);
                }
                lemma_pow2_adds(32, 24);
                assert(pow2(56) == 0x1_0000_0000 * 0x100_0000) by (nonlinear_arith)
                    requires
                        pow2(56) == pow2(32) * pow2(24),
                        pow2(32) == 0x100000000,
                        pow2(24) == 0x1000000,
                ;
                assert(2 * sn2 >= pow2((-e + 1) as nat)) by (nonlinear_arith)
                    requires
                        e < 0 ==> sn2 >= pow2((-e) as nat),
                        pow2((-e + 1) as nat) == 2 * pow2((-e) as nat),
                        e == 0 ==> sn2 == a,
                        a >= 1,
                        e <= 0,
                        pow2(1) == 2,
                ;
                assert(false);
            }
        }
        sn2 = sn2 * 2;
        e = e - 1;
    }
    let q = sn2 / sd;
    let rem = sn2 % sd;
    assert(8388608 <= q < 16777216) by (nonlinear_arith)
        requires
            sd > 0,
            q == sn2 / sd,
            8388608 * sd <= sn2 < sd * 16777216,
    ;
    let m = if 2 * rem > sd || (2 * rem == sd && q % 2 == 1) { q + 1 } else { q };
    (m, e)
}


/// The exponent found by rounding is the one `nearest_f32_exponent` names.
proof fn lemma_nearest_exponent(a: nat, b: nat, e: int)
    requires
        b > 0,
        in_binade(a, b, e),
    ensures
        nearest_f32_exponent(a, b) == e,
{
    let c = nearest_f32_exponent(a, b);
    assert(in_binade(a, b, c));
    lemma_binade_unique(a, b, c, e);
}

/// `(n as f32 / 1.3) as usize`, the number of words in `n` tokens, computed
/// exactly as single-precision arithmetic rounds it.
pub fn tokens_to_words(n: usize) -> (w: usize)
    ensures
        w == tokens_to_words_spec(n as nat),
{
    if n == 0 {
        return 0;
    }
    proof {
        lemma2_to64();
    }
    assert(n < 0x1_0000_0000_0000_0000_0000_0000);
    let (m1, e1) = round_to_f32(n as u128, 1);
    proof {
        lemma_nearest_exponent(n as nat, 1, e1 as int);
        if e1 < -23 {
            if -e1 > 24 {
                lemma_pow2_strictly_increases(24, (-e1) as nat);
            }
            assert(scaled_num(n as nat, e1 as int) == n * pow2((-e1) as nat));
            assert(n * pow2((-e1) as nat) >= pow2((-e1) as nat)) by (nonlinear_arith)
                requires
                    n >= 1,
            ;
            assert(false);
        }
        if e1 >= 41 {
            if e1 > 41 {
                lemma_pow2_strictly_increases(41, e1 as nat);
            }
            lemma_pow2_adds(23, 41);
            assert(pow2(41) == 0x200_0000_0000) by (nonlinear_arith)
                requires
                    pow2(64) == pow2(23) * pow2(41),
                    pow2(64) == 0x10000000000000000,
                    pow2(23) == 0x800000,
            ;
            assert(scaled_den(1, e1 as int) == 1 * pow2(e1 as nat));
            assert(false);
        }
    }
    let k: u32 = (e1 + 23) as u32;
    let p = pow2_u128(k);
    proof {
        if k < 63 {
            lemma_pow2_strictly_increases(k as nat, 63);
        }
        lemma_pow2_adds(32, 31);
        lemma_pow2_adds(24, 63);
        assert(pow2(63) == 0x8000_0000_0000_0000) by (nonlinear_arith)
            requires
                pow2(63) == pow2(32) * pow2(31),
                pow2(32) == 0x100000000,
                pow2(31) == 0x80000000,
        ;
        assert(m1 * p <= 0x1_0000_0000_0000_0000_0000_0000) by (nonlinear_arith)
            requires
                m1 <= 16777216,
                p <= 0x8000_0000_0000_0000,
        ;
    }
    let a = m1 * p;
    proof {
        lemma_pow2_pos(k as nat);
    }
    assert(a >= 1) by (nonlinear_arith)
        requires
            m1 >= 1,
            p >= 1,
            a == m1 * p,
    ;
    proof {
        if a == 0x1_0000_0000_0000_0000_0000_0000 {
            assert(m1 * p <= 0x80_0000_0000_0000_0000_0000) by (nonlinear_arith)
                requires
                    m1 <= 16777216,
                    p <= 0x8000_0000_0000_0000,
            ;
        }
    }
    let (m2, e2) = round_to_f32(a, 10905190);
    proof {
        lemma_nearest_exponent(a as nat, 10905190, e2 as int);
    }
    let wide: u128 = if e2 >= 0 {
        let q = pow2_u128(e2 as u32);
        proof {
            if e2 < 95 {
                lemma_pow2_strictly_increases(e2 as nat, 95);
            }
            lemma_pow2_adds(64, 31);
            assert(pow2(95) == 0x8000_0000_0000_0000_0000_0000) by (nonlinear_arith)
                requires
                    pow2(95) == pow2(64) * pow2(31),
                    pow2(64) == 0x10000000000000000,
                    pow2(31) == 0x80000000,
            ;
            assert(m2 * q <= 0x80_0000_0000_0000_0000_0000_0000_0000) by (nonlinear_arith)
                requires
                    m2 <= 16777216,
                    q <= 0x8000_0000_0000_0000_0000_0000,
            ;
        }
        m2 * q
    } else {
        let q = pow2_u128((-e2) as u32);
        proof {
            lemma_pow2_pos((-e2) as nat);
        }
        m2 / q
    };
    if wide > usize::MAX as u128 {
        usize::MAX
    } else {
        wide as usize
    }
}

} // verus!
