//! The 80-bit extended-precision sample rate of an AIFF file, truncated to an
//! unsigned 32-bit integer.
//!
//! The ten bytes hold a sign bit, a 15-bit exponent biased by 16383 and a
//! 64-bit mantissa whose top bit stands before the binary point. The value is
//! `mantissa * 2^(exponent - 16383 - 63)`. Truncation drops the fraction,
//! gives 0 for a negative value and `u32::MAX` for one beyond the range.
use vstd::arithmetic::power2::{pow2, lemma_pow2_pos, lemma_pow2_strictly_increases, lemma2_to64};
use vstd::bits::{lemma_u64_shl_is_mul, lemma_u64_shr_is_div};
use vstd::prelude::*;
use crate::bytes::{be64, read_be64};

verus! {

/// The exponent bias of the extended format, plus the 63 fraction bits of the mantissa.
pub const SCALE_BIAS: u64 = 16446;

/// The biased exponent of the extended value at `at`.
pub open spec fn biased_exponent(d: Seq<u8>, at: int) -> nat {
    ((d[at] % 0x80) * 0x100 + d[at + 1]) as nat
}

/// The magnitude of the extended value at `at`, rounded toward zero.
pub open spec fn magnitude(d: Seq<u8>, at: int) -> nat {
    let e = biased_exponent(d, at);
    let m = be64(d, at + 2);
    if e >= SCALE_BIAS {
        m * pow2((e - SCALE_BIAS) as nat)
    } else {
        m / pow2((SCALE_BIAS - e) as nat)
    }
}

/// The extended value at `at` truncated to `u32`, saturating at both ends.
pub open spec fn trunc_u32(d: Seq<u8>, at: int) -> nat {
    if d[at] >= 0x80 {
        0
    } else if magnitude(d, at) > u32::MAX {
        u32::MAX as nat
    } else {
        magnitude(d, at)
    }
}

/// Reads the extended value at `at` and truncates it to `u32`.
pub fn read_float80_u32(d: &[u8], at: usize) -> (r: u32)
    requires
        at + 10 <= d.len(),
    ensures
        r == trunc_u32(d@, at as int),
{
    if d[at] >= 0x80 {
        return 0;
    }
    let e: u64 = (d[at] % 0x80) as u64 * 0x100 + d[at + 1] as u64;
    let m: u64 = read_be64(d, at + 2);
    assert(e == biased_exponent(d@, at as int));
    proof {
        lemma2_to64();
    }
    let mag: u64;
    if e >= SCALE_BIAS {
        let s: u64 = e - SCALE_BIAS;
        proof {
            lemma_pow2_pos(s as nat);
        }
        if m == 0 {
            assert(m * pow2(s as nat) == 0) by (nonlinear_arith) requires m == 0;
            return 0;
        }
        if s >= 32 || m >= 0x1_0000_0000 {
            proof {
                if s >= 32 {
                    if s > 32 {
                        lemma_pow2_strictly_increases(32, s as nat);
                    }
                    assert(m * pow2(s as nat) >= pow2(s as nat)) by (nonlinear_arith)
                        requires m >= 1, pow2(s as nat) > 0;
                } else {
                    assert(m * pow2(s as nat) >= m) by (nonlinear_arith)
                        requires m >= 1, pow2(s as nat) > 0;
                }
            }
            return u32::MAX;
        }
        proof {
            if s > 0 {
                lemma_pow2_strictly_increases(s as nat, 32);
            }
            assert(m * pow2(s as nat) <= 0xFFFF_FFFF * 0x1_0000_0000) by (nonlinear_arith)
                requires m < 0x1_0000_0000, pow2(s as nat) <= 0x1_0000_0000;
            lemma_u64_shl_is_mul(m, s);
        }
        mag = m << s;
    } else {
        let s: u64 = SCALE_BIAS - e;
        if s >= 64 {
            proof {
                if s > 64 {
                    lemma_pow2_strictly_increases(64, s as nat);
                }
                assert(m as nat / pow2(s as nat) == 0) by (nonlinear_arith)
                    requires m < pow2(s as nat);
            }
            return 0;
        }
        proof {
            lemma_u64_shr_is_div(m, s);
        }
        mag = m >> s;
    }
    assert(mag == magnitude(d@, at as int));
    if mag > 0xFFFF_FFFF {
        u32::MAX
    } else {
        mag as u32
    }
}

} // verus!
