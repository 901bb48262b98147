//! Integers read as double-precision numbers, by the bits of the nearest
//! double (ties to even), without floating-point arithmetic.

use vstd::arithmetic::power2::{
    lemma2_to64, lemma2_to64_rest, lemma_pow2_adds, lemma_pow2_pos, lemma_pow2_strictly_increases, lemma_pow2_unfold,
    pow2,
};
use vstd::prelude::*;

use crate::language::FloatBits;

verus! {

/// The number of binary digits of `a` (none for 0).
pub open spec fn bit_length(a: nat) -> nat
    decreases a,
{
    if a == 0 {
        0
    } else {
        1 + bit_length(a / 2)
    }
}

/// `a / d` rounded to the nearest integer, a tie to the even one.
pub open spec fn div_round_even(a: nat, d: nat) -> nat {
    let q = a / d;
    let r = a % d;
    if 2 * r > d || (2 * r == d && q % 2 == 1) {
        q + 1
    } else {
        q
    }
}

/// The bits of the double nearest to the natural number `a` (a tie to the
/// one with an even significand): exponent field `k + 1022` for a number of
/// `k` binary digits, and the 52 digits after the leading one.
pub open spec fn nat_to_f64_bits(a: nat) -> int {
    if a == 0 {
        0
    } else {
        let k = bit_length(a);
        if k <= 53 {
            (k + 1022) * pow2(52) + (a * pow2((53 - k) as nat) - pow2(52))
        } else {
            let q = div_round_even(a, pow2((k - 53) as nat));
            if q == pow2(53) {
                (k + 1023) * pow2(52) as int
            } else {
                (k + 1022) * pow2(52) + (q - pow2(52))
            }
        }
    }
}

/// The bits of the double nearest to the integer `n`: those of `|n|`, with
/// the sign bit set when `n` is negative.
pub open spec fn int_to_f64_bits(n: int) -> int {
    if n < 0 {
        pow2(63) + nat_to_f64_bits((-n) as nat)
    } else {
        nat_to_f64_bits(n as nat)
    }
}

/// A positive number of `k` binary digits lies in `[2^(k-1), 2^k)`.
pub proof fn lemma_bit_length_bounds(a: nat)
    requires
        a > 0,
    ensures
        bit_length(a) >= 1,
        pow2((bit_length(a) - 1) as nat) <= a < pow2(bit_length(a)),
    decreases a,
{
    let h = a / 2;
    if h == 0 {
        assert(a == 1);
        assert(bit_length(0) == 0);
        lemma2_to64();
        lemma2_to64_rest();
    } else {
        lemma_bit_length_bounds(h);
        let b = bit_length(h);
        lemma_pow2_unfold(b);
        lemma_pow2_unfold(b + 1);
        assert(bit_length(a) == b + 1);
    }
}

/// A number below `2^64` has at most 64 binary digits.
proof fn lemma_bit_length_at_most_64(a: nat)
    requires
        0 < a < pow2(64),
    ensures
        1 <= bit_length(a) <= 64,
{
    lemma_bit_length_bounds(a);
    if bit_length(a) > 64 {
        lemma_pow2_strictly_increases(64, (bit_length(a) - 1) as nat);
    }
}

/// `2^n` for a small `n`.
fn pow2_u64(n: u64) -> (r: u64)
    requires
        n < 64,
    ensures
        r == pow2(n as nat),
{
    let mut r: u64 = 1;
    let mut i: u64 = 0;
    proof {
        lemma2_to64();
        lemma2_to64_rest();
    }
    while i < n
        invariant
            i <= n < 64,
            r == pow2(i as nat),
        decreases n - i,
    {
        proof {
            lemma_pow2_unfold((i + 1) as nat);
            lemma_pow2_strictly_increases((i + 1) as nat, 64);
            lemma2_to64();
            lemma2_to64_rest();
        }
        r = r * 2;
        i = i + 1;
    }
    r
}

/// The number of binary digits of `a`.
fn bit_length_u64(a: u64) -> (k: u64)
    ensures
        k == bit_length(a as nat),
{
    let mut t: u64 = a;
    let mut k: u64 = 0;
    proof {
        lemma2_to64();
        lemma2_to64_rest();
        if a > 0 {
            lemma_bit_length_at_most_64(a as nat);
        }
    }
    while t > 0
        invariant
            bit_length(a as nat) == k + bit_length(t as nat),
            bit_length(a as nat) <= 64,
        decreases t,
    {
        t = t / 2;
        k = k + 1;
    }
    k
}

/// The bits of the double nearest to `a`, as `a as f64` gives them.
pub fn f64_bits_of_u64(a: u64) -> (r: FloatBits)
    ensures
        r.0 == nat_to_f64_bits(a as nat),
        r.0 < 0x8000_0000_0000_0000,
{
    if a == 0 {
        return FloatBits(0);
    }
    let k = bit_length_u64(a);
    proof {
        lemma2_to64();
        lemma2_to64_rest();
        lemma_bit_length_at_most_64(a as nat);
        lemma_bit_length_bounds(a as nat);
    }
    let m: u64;
    let e: u64;
    if k <= 53 {
        let p = pow2_u64(53 - k);
        proof {
            lemma_pow2_pos((53 - k) as nat);
            lemma_pow2_adds((k - 1) as nat, (53 - k) as nat);
            lemma_pow2_adds(k as nat, (53 - k) as nat);
            let lo = pow2((k - 1) as nat);
            let hi = pow2(k as nat);
            assert(lo * p <= a * p && a * p < hi * p) by (nonlinear_arith)
                requires
                    lo <= a < hi,
                    p > 0,
            ;
        }
        m = a * p;
        e = k + 1022;
    } else {
        let d = pow2_u64(k - 53);
        let q = a / d;
        let rem = a % d;
        proof {
            lemma_pow2_pos((k - 53) as nat);
            lemma_pow2_adds(52, (k - 53) as nat);
            lemma_pow2_adds(53, (k - 53) as nat);
            let lo = pow2(52);
            let hi = pow2(53);
            let ai = a as int;
            let di = d as int;
            assert(lo <= ai / di && ai / di < hi) by (nonlinear_arith)
                requires
                    lo * di <= ai < hi * di,
                    di > 0,
            ;
        }
        let q2 = if 2 * rem > d || (2 * rem == d && q % 2 == 1) {
            q + 1
        } else {
            q
        };
        if q2 == 0x20_0000_0000_0000 {
            m = 0x10_0000_0000_0000;
            e = k + 1023;
        } else {
            m = q2;
            e = k + 1022;
        }
    }
    FloatBits(e * 0x10_0000_0000_0000 + (m - 0x10_0000_0000_0000))
}

/// The bits of the double nearest to `n`, as `n as f64` gives them.
pub fn f64_bits_of_i64(n: i64) -> (r: FloatBits)
    ensures
        r.0 == int_to_f64_bits(n as int),
{
    proof {
        lemma2_to64();
        lemma2_to64_rest();
    }
    if n < 0 {
        let a: u64 = if n == i64::MIN {
            0x8000_0000_0000_0000
        } else {
            (-n) as u64
        };
        assert(a as int == -(n as int));
        let b = f64_bits_of_u64(a);
        assert(pow2(63) == 0x8000_0000_0000_0000);
        FloatBits(0x8000_0000_0000_0000 + b.0)
    } else {
        f64_bits_of_u64(n as u64)
    }
}

} // verus!
