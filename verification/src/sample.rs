//! Samples.
//!
//! A sample is a 32-bit floating-point number, nominally between -1 and 1. It is held by
//! its *rank*: the signed integer that takes its place in the total order of such numbers.
//! Ranks compare as the samples do, and the rank and the bit pattern give each other.

use vstd::arithmetic::power2::{
    lemma2_to64, lemma_pow2_adds, lemma_pow2_pos, lemma_pow2_strictly_increases, pow2,
};
use vstd::prelude::*;

verus! {

/// The rank of the largest finite sample.
pub const HIGHEST: i32 = 0x7f7f_ffff;

/// The rank of the smallest finite sample.
pub const LOWEST: i32 = -0x7f80_0000;

/// The rank of zero.
pub const ZERO: i32 = 0;

/// The rank of the sample with a bit pattern: the sign bit splits the order, and below
/// zero a larger magnitude comes earlier.
pub open spec fn rank_spec(bits: u32) -> int {
    if bits < 0x8000_0000 {
        bits as int
    } else {
        0x7fff_ffff - bits
    }
}

/// The rank of the sample with a bit pattern.
pub fn rank_of_bits(bits: u32) -> (r: i32)
    ensures
        r == rank_spec(bits),
{
    if bits < 0x8000_0000 {
        bits as i32
    } else {
        -1 - (bits - 0x8000_0000) as i32
    }
}

/// The bit pattern of the sample with a rank.
pub fn bits_of_rank(rank: i32) -> (r: u32)
    ensures
        rank_spec(r) == rank,
{
    if rank >= 0 {
        rank as u32
    } else {
        0x8000_0000 + (-1 - rank) as u32
    }
}

/// No two bit patterns share a rank.
pub proof fn ranks_are_distinct(a: u32, b: u32)
    requires
        rank_spec(a) == rank_spec(b),
    ensures
        a == b,
{
}

/// The magnitude of a sample, as a bit pattern without its sign.
pub open spec fn magnitude(rank: i32) -> nat {
    if rank >= 0 {
        rank as nat
    } else {
        (-1 - rank) as nat
    }
}

/// Whether the sample is a number (infinities are).
pub open spec fn is_number(rank: i32) -> bool {
    magnitude(rank) <= 0x7f80_0000
}

/// Whether the sample is a number.
pub fn is_a_number(rank: i32) -> (r: bool)
    ensures
        r == is_number(rank),
{
    -0x7f80_0001 <= rank && rank <= 0x7f80_0000
}

/// The exponent field of a finite sample, that of the subnormal ones included.
pub open spec fn exponent(rank: i32) -> nat {
    let e = magnitude(rank) / 0x80_0000;
    if e == 0 {
        1
    } else {
        e
    }
}

/// The significand of a finite sample: its magnitude is
/// `significand * 2^exponent / 2^150`.
pub open spec fn significand(rank: i32) -> nat {
    let m = magnitude(rank);
    if m / 0x80_0000 == 0 {
        m
    } else {
        m % 0x80_0000 + 0x80_0000
    }
}

/// The magnitude of a finite sample times `2^(bits - 1)`, to the nearest integer, halves
/// rounded up.
pub open spec fn rounded_magnitude(rank: i32, bits: nat) -> nat {
    let scaled = significand(rank) * pow2((exponent(rank) + bits - 1) as nat);
    (2 * scaled + pow2(150)) / (2 * pow2(150))
}

/// The sample as a signed integer of `bits` bits: scaled to the full range, rounded to the
/// nearest with halves away from zero, and limited to the range. What is no number gives 0.
pub open spec fn quantized(rank: i32, bits: nat) -> int {
    let full = pow2((bits - 1) as nat) as int;
    if !is_number(rank) {
        0
    } else if magnitude(rank) == 0x7f80_0000 || rounded_magnitude(rank, bits) >= full {
        if rank >= 0 {
            full - 1
        } else {
            -full
        }
    } else if rank >= 0 {
        rounded_magnitude(rank, bits) as int
    } else {
        -rounded_magnitude(rank, bits)
    }
}

proof fn lemma_round_large(g: nat, e: nat, bits: nat)
    requires
        0x80_0000 <= g,
        1 <= bits <= 24,
        e + bits >= 151,
    ensures
        (2 * (g * pow2((e + bits - 1) as nat)) + pow2(150)) / (2 * pow2(150)) >= pow2(
            (bits - 1) as nat,
        ),
{
    let k = (e + bits - 151) as nat;
    let h = pow2(150);
    lemma_pow2_pos(150);
    lemma_pow2_pos(k);
    lemma_pow2_adds(k, 150);
    lemma2_to64();
    let n = g * pow2(k);
    assert(n >= g) by (nonlinear_arith)
        requires
            n == g * pow2(k),
            pow2(k) >= 1,
    ;
    assert(g * pow2((e + bits - 1) as nat) == n * h) by (nonlinear_arith)
        requires
            pow2((e + bits - 1) as nat) == pow2(k) * h,
            n == g * pow2(k),
    ;
    if bits < 24 {
        lemma_pow2_strictly_increases((bits - 1) as nat, 23);
    }
    assert((2 * (n * h) + h) / (2 * h) >= n) by (nonlinear_arith)
        requires
            h > 0,
    ;
}

proof fn lemma_round_small(g: nat, e: nat, bits: nat, j: nat)
    requires
        j >= 1,
        e >= 1,
        bits >= 1,
        e + bits + j == 151,
    ensures
        (2 * (g * pow2((e + bits - 1) as nat)) + pow2(150)) / (2 * pow2(150)) == (g + pow2(
            (j - 1) as nat,
        )) / pow2(j),
{
    let h = pow2((150 - j) as nat);
    lemma_pow2_pos((150 - j) as nat);
    lemma_pow2_pos(j);
    lemma_pow2_adds((150 - j) as nat, j);
    lemma_pow2_adds(1, (j - 1) as nat);
    lemma2_to64();
    let p = pow2(j);
    let half = pow2((j - 1) as nat);
    assert(pow2(150) == h * p);
    assert(p == 2 * half);
    let num = 2 * (g * h) + h * p;
    assert(num == (2 * h) * (g + half)) by (nonlinear_arith)
        requires
            num == 2 * (g * h) + h * p,
            p == 2 * half,
    ;
    assert(2 * pow2(150) == (2 * h) * p) by (nonlinear_arith)
        requires
            pow2(150) == h * p,
    ;
    vstd::arithmetic::div_mod::lemma_div_denominator(num as int, (2 * h) as int, p as int);
    vstd::arithmetic::div_mod::lemma_div_multiples_vanish((g + half) as int, (2 * h) as int);
}

/// The sample as a signed integer of `bits` bits.
pub fn quantize(rank: i32, bits: u32) -> (r: i32)
    requires
        2 <= bits <= 24,
    ensures
        r == quantized(rank, bits as nat),
        -pow2((bits - 1) as nat) <= r < pow2((bits - 1) as nat),
{
    proof {
        lemma2_to64();
        lemma_pow2_pos((bits - 1) as nat);
        if bits < 24 {
            lemma_pow2_strictly_increases((bits - 1) as nat, 23);
        }
        vstd::bits::lemma_u64_shl_is_mul(1, (bits - 1) as u64);
    }
    if !is_a_number(rank) {
        return 0;
    }
    let full: u64 = 1u64 << ((bits - 1) as u64);
    let m: u64 = if rank >= 0 {
        rank as u64
    } else {
        (-1 - rank) as u64
    };
    let rounded: u64;
    if m == 0x7f80_0000 {
        rounded = full;
    } else {
        let field: u64 = m / 0x80_0000;
        let e: u64 = if field == 0 {
            1
        } else {
            field
        };
        let g: u64 = if field == 0 {
            m
        } else {
            m % 0x80_0000 + 0x80_0000
        };
        if e + bits as u64 >= 151 {
            proof {
                lemma_round_large(g as nat, e as nat, bits as nat);
            }
            rounded = full;
        } else {
            let j: u64 = 151 - e - bits as u64;
            proof {
                lemma_round_small(g as nat, e as nat, bits as nat, j as nat);
            }
            if j > 25 {
                proof {
                    lemma_pow2_strictly_increases(25, j as nat);
                    if j > 26 {
                        lemma_pow2_strictly_increases(25, (j - 1) as nat);
                    }
                    lemma_pow2_adds(1, (j - 1) as nat);
                    vstd::arithmetic::div_mod::lemma_basic_div(
                        (g + pow2((j - 1) as nat)) as int,
                        pow2(j as nat) as int,
                    );
                }
                rounded = 0;
            } else {
                proof {
                    if j < 25 {
                        lemma_pow2_strictly_increases(j as nat, 25);
                    }
                    lemma_pow2_pos(j as nat);
                    lemma_pow2_pos((j - 1) as nat);
                    lemma_pow2_adds(1, (j - 1) as nat);
                    vstd::bits::lemma_u64_shl_is_mul(1, (j - 1) as u64);
                }
                let half: u64 = 1u64 << (j - 1);
                rounded = (g + half) / (2 * half);
            }
        }
    }
    if rounded >= full {
        if rank >= 0 {
            full as i32 - 1
        } else {
            -(full as i32)
        }
    } else if rank >= 0 {
        rounded as i32
    } else {
        -(rounded as i32)
    }
}

/// Ranks compare as samples do: those with the sign bit come before the others, among them the
/// greater bit pattern comes first, and among the others the smaller one.
pub proof fn ranks_order_samples(a: u32, b: u32)
    ensures
        a < b < 0x8000_0000 ==> rank_spec(a) < rank_spec(b),
        b < 0x8000_0000 <= a ==> rank_spec(a) < rank_spec(b),
        0x8000_0000 <= a < b ==> rank_spec(b) < rank_spec(a),
        a < 0x8000_0000 ==> rank_spec(a) == a,
        -0x8000_0000 <= rank_spec(a) < 0x8000_0000,
{
}

/// A sample is a number unless all bits of its exponent are set and some of its fraction are.
pub proof fn numbers_are_told_by_bits(bits: u32)
    ensures
        is_number(rank_spec(bits) as i32) <==> !(bits / 0x80_0000 % 0x100 == 0xff && bits
            % 0x80_0000 != 0),
{
}

/// A finite sample is quantised to the nearest integer: with its significand and exponent read
/// off its bits, the integer lies within one half of the sample times `2^(bits - 1)`, halves going
/// away from zero. A sample beyond the range gives its nearer end.
pub proof fn quantized_is_nearest(rank: i32, bits: nat, m: nat)
    requires
        1 <= bits,
        rank >= 0 ==> m == rank,
        rank < 0 ==> m == -1 - rank,
        m < 0x7f80_0000,
    ensures
        ({
            let e = m / 0x80_0000;
            let g = if e == 0 {
                m
            } else {
                m % 0x80_0000 + 0x80_0000
            };
            let scaled = g * pow2(((if e == 0 {
                1
            } else {
                e
            }) + bits - 1) as nat);
            let unit = pow2(150);
            let full = pow2((bits - 1) as nat) as int;
            let q = quantized(rank, bits);
            let size = if rank >= 0 {
                q
            } else {
                -q
            };
            if 2 * scaled < (2 * full - 1) * unit {
                (2 * size - 1) * unit <= 2 * scaled < (2 * size + 1) * unit
            } else if rank >= 0 {
                q == full - 1
            } else {
                q == -full
            }
        }),
{
    let s = (significand(rank) * pow2((exponent(rank) + bits - 1) as nat)) as int;
    let h = pow2(150) as int;
    let full = pow2((bits - 1) as nat) as int;
    lemma_pow2_pos(150);
    lemma_pow2_pos((bits - 1) as nat);
    let r = rounded_magnitude(rank, bits) as int;
    let num = 2 * s + h;
    vstd::arithmetic::div_mod::lemma_fundamental_div_mod(num, 2 * h);
    assert(r == num / (2 * h));
    let rem = num % (2 * h);
    assert(num == 2 * h * r + rem);
    assert((2 * r - 1) * h == 2 * h * r - h) by (nonlinear_arith);
    assert((2 * r + 1) * h == 2 * h * r + h) by (nonlinear_arith);
    assert((2 * full - 1) * h == 2 * h * full - h) by (nonlinear_arith);
    if r >= full {
        assert(2 * h * r >= 2 * h * full) by (nonlinear_arith)
            requires
                r >= full,
                h > 0,
        ;
    } else {
        assert(2 * h * r + 2 * h <= 2 * h * full) by (nonlinear_arith)
            requires
                r + 1 <= full,
                h > 0,
        ;
    }
}

/// What is no number gives silence, and an infinite sample the nearer end of the range.
pub proof fn other_samples_are_quantized(rank: i32, bits: nat)
    ensures
        !is_number(rank) ==> quantized(rank, bits) == 0,
        rank == 0x7f80_0000 ==> quantized(rank, bits) == pow2((bits - 1) as nat) - 1,
        rank == -0x7f80_0001 ==> quantized(rank, bits) == -pow2((bits - 1) as nat),
{
}

/// The largest finite sample, the smallest one, and zero, by their bits.
pub proof fn bounds_by_bits()
    ensures
        HIGHEST == rank_spec(0x7f7f_ffff),
        LOWEST == rank_spec(0xff7f_ffff),
        ZERO == rank_spec(0),
{
}

} // verus!
