//! Masked variant of a 64-bit IEEE float that limits the available number
//! of usable exponent and fraction bits, to probe reduced-precision
//! behaviour without implementing a new software float.
//!
//! Only the bit-pattern transformation lives here: it clamps (saturates,
//! not wraps) the exponent into the representable window for E usable
//! exponent bits, masks the fraction to the window for F bits by
//! truncation, and passes signed zero through unchanged. The host float
//! arithmetic between maskings is outside this library's reach.

use vstd::prelude::*;

verus! {

/// The sign bit of a 64-bit float pattern.
pub open spec fn sign_mask() -> u64 {
    0x8000_0000_0000_0000
}

/// The top (sign) bit of the biased exponent field.
pub open spec fn exponent_sign_mask() -> u64 {
    0x4000_0000_0000_0000
}

/// The full 11-bit exponent field.
pub open spec fn exponent_mask() -> u64 {
    0x7ff0_0000_0000_0000
}

/// The full 52-bit fraction field.
pub open spec fn fraction_mask() -> u64 {
    0x000f_ffff_ffff_ffff
}

/// The exponent bits that must agree with the exponent's sign bit when only
/// `e` exponent bits are usable: the top 10−e bits of the field below the
/// exponent sign.
pub open spec fn exp_window_mask(e: u64) -> u64 {
    (((1u64 << ((10 - e) as u64)) - 1) as u64) << ((52 + e) as u64)
}

/// The fraction bits kept when `f` fraction bits are usable.
pub open spec fn frac_window_mask(f: u64) -> u64 {
    !(((1u64 << ((51 - f) as u64)) - 1) as u64) & fraction_mask()
}

/// The largest exponent field allowed in the window.
pub open spec fn exp_clamp_high(e: u64) -> u64 {
    (((1u64 << ((e + 52) as u64)) - 1) as u64) & exponent_mask()
}

/// The masking transformation on a full-precision bit pattern: clamp the
/// exponent into the window (saturating high magnitudes at the window's
/// top, low magnitudes at its bottom), truncate the fraction, and pass
/// signed zero through the clamp untouched.
pub open spec fn mask_spec(e: u64, f: u64, bits: u64) -> u64 {
    if bits & !sign_mask() == 0 {
        bits & sign_mask()
    } else {
        let sign = bits & (sign_mask() | exponent_sign_mask());
        let exp = if bits & exponent_sign_mask() != 0 {
            if bits & exp_window_mask(e) != 0 {
                exp_clamp_high(e)
            } else {
                bits & exponent_mask()
            }
        } else {
            if bits & exp_window_mask(e) != exp_window_mask(e) {
                exp_window_mask(e)
            } else {
                bits & exponent_mask()
            }
        };
        let frac = bits & frac_window_mask(f);
        sign | exp | frac
    }
}

/// Apply the masking transformation for `e` usable exponent bits and `f`
/// usable fraction bits.
pub fn mask_bits(e: u32, f: u32, bits: u64) -> (r: u64)
    requires
        e <= 10,
        f <= 51,
    ensures
        r == mask_spec(e as u64, f as u64, bits),
{
    let sign_m: u64 = 0x8000_0000_0000_0000;
    let exp_sign_m: u64 = 0x4000_0000_0000_0000;
    let exp_m: u64 = 0x7ff0_0000_0000_0000;
    let frac_m: u64 = 0x000f_ffff_ffff_ffff;
    proof {
        assert(forall|s: u64| s < 64 ==> (1u64 << s) >= 1) by (bit_vector);
    }
    let ewin: u64 = ((1u64 << ((10 - e) as u64)) - 1) << ((52 + e) as u64);
    let fwin: u64 = !((1u64 << ((51 - f) as u64)) - 1) & frac_m;

    if bits & !sign_m == 0 {
        // Special case for signed zero: bypass the clamp.
        return bits & sign_m;
    }
    let sign = bits & (sign_m | exp_sign_m);
    let exp: u64 = if bits & exp_sign_m != 0 {
        if bits & ewin != 0 {
            ((1u64 << ((e + 52) as u64)) - 1) & exp_m
        } else {
            bits & exp_m
        }
    } else {
        if bits & ewin != ewin {
            ewin
        } else {
            bits & exp_m
        }
    };
    let frac = bits & fwin;
    sign | exp | frac
}

/// A magnitude whose exponent lies above the window for `e` does not keep
/// its own exponent bits: it saturates at the window's top, the same
/// pattern whatever the overflowing magnitude was.
pub proof fn lemma_mask_clamps_high(e: u64, f: u64, bits: u64)
    requires
        e <= 10,
        f <= 51,
        bits & !sign_mask() != 0,
        bits & exponent_sign_mask() != 0,
        bits & exp_window_mask(e) != 0,
    ensures
        mask_spec(e, f, bits) == (bits & (sign_mask() | exponent_sign_mask())) | exp_clamp_high(e)
            | (bits & frac_window_mask(f)),
{
}

/// A magnitude whose exponent lies below the window for `e` does not keep
/// its own exponent bits either: it saturates at the window's bottom.
pub proof fn lemma_mask_clamps_low(e: u64, f: u64, bits: u64)
    requires
        e <= 10,
        f <= 51,
        bits & !sign_mask() != 0,
        bits & exponent_sign_mask() == 0,
        bits & exp_window_mask(e) != exp_window_mask(e),
    ensures
        mask_spec(e, f, bits) == (bits & (sign_mask() | exponent_sign_mask())) | exp_window_mask(e)
            | (bits & frac_window_mask(f)),
{
}

/// Signed zero passes through the masking unchanged, for any window.
pub proof fn lemma_mask_zero(e: u64, f: u64, bits: u64)
    requires
        e <= 10,
        f <= 51,
        bits & !sign_mask() == 0,
    ensures
        mask_spec(e, f, bits) == bits & sign_mask(),
{
}

/// Widening the exponent window keeps every already-representable pattern
/// representable: a pattern the mask leaves unchanged at `e1` usable bits
/// is left unchanged at any `e2 ≥ e1` with the same fraction window.
pub proof fn lemma_wider_window_keeps(e1: u64, e2: u64, f: u64, bits: u64)
    requires
        e1 <= e2 <= 10,
        f <= 51,
        mask_spec(e1, f, bits) == bits,
    ensures
        mask_spec(e2, f, bits) == bits,
{
    if bits & !sign_mask() == 0 {
        assert(bits & 0x8000_0000_0000_0000u64 == bits) by (bit_vector)
            requires
                bits & !0x8000_0000_0000_0000u64 == 0,
        ;
    } else {
        assert({
            let sign = bits & (0x8000_0000_0000_0000u64 | 0x4000_0000_0000_0000u64);
            let ewin1 = (((1u64 << ((10 - e1) as u64)) - 1) as u64) << ((52 + e1) as u64);
            let ewin2 = (((1u64 << ((10 - e2) as u64)) - 1) as u64) << ((52 + e2) as u64);
            let fwin = !(((1u64 << ((51 - f) as u64)) - 1) as u64) & 0x000f_ffff_ffff_ffffu64;
            let exp1 = if bits & 0x4000_0000_0000_0000u64 != 0 {
                if bits & ewin1 != 0 {
                    (((1u64 << ((e1 + 52) as u64)) - 1) as u64) & 0x7ff0_0000_0000_0000u64
                } else {
                    bits & 0x7ff0_0000_0000_0000u64
                }
            } else {
                if bits & ewin1 != ewin1 {
                    ewin1
                } else {
                    bits & 0x7ff0_0000_0000_0000u64
                }
            };
            let exp2 = if bits & 0x4000_0000_0000_0000u64 != 0 {
                if bits & ewin2 != 0 {
                    (((1u64 << ((e2 + 52) as u64)) - 1) as u64) & 0x7ff0_0000_0000_0000u64
                } else {
                    bits & 0x7ff0_0000_0000_0000u64
                }
            } else {
                if bits & ewin2 != ewin2 {
                    ewin2
                } else {
                    bits & 0x7ff0_0000_0000_0000u64
                }
            };
            (sign | exp1 | (bits & fwin)) == bits ==> (sign | exp2 | (bits & fwin)) == bits
        }) by (bit_vector)
            requires
                e1 <= e2,
                e2 <= 10,
                f <= 51,
                bits & !0x8000_0000_0000_0000u64 != 0,
        ;
    }
}

/// A masked variant of a 64-bit float pattern: the stored bits are always a
/// fixed point of the masking transformation for the window (E, F).
#[derive(Clone, Copy, Debug)]
pub struct MaskedFloat<const E: u32, const F: u32> {
    bits: u64,
}

impl<const E: u32, const F: u32> MaskedFloat<E, F> {
    /// The stored, already-masked bit pattern.
    pub closed spec fn sbits(self) -> u64 {
        self.bits
    }

    /// Is the window usable?
    pub open spec fn params_ok() -> bool {
        E <= 10 && F <= 51
    }

    /// The stored pattern is invariant under its own masking.
    pub open spec fn wf(self) -> bool {
        Self::params_ok() && mask_spec(E as u64, F as u64, self.sbits()) == self.sbits()
    }

    /// Mask a full-precision bit pattern into the window.
    pub fn new(bits: u64) -> (r: Self)
        requires
            Self::params_ok(),
        ensures
            r.sbits() == mask_spec(E as u64, F as u64, bits),
            r.wf(),
    {
        let masked = mask_bits(E, F, bits);
        proof {
            lemma_mask_idempotent(E as u64, F as u64, bits);
        }
        MaskedFloat { bits: masked }
    }

    /// The stored bit pattern.
    pub fn to_bits(&self) -> (r: u64)
        ensures
            r == self.sbits(),
    {
        self.bits
    }
}

/// Masking is idempotent: masking a pattern twice gives the first masking.
pub proof fn lemma_mask_idempotent(e: u64, f: u64, bits: u64)
    requires
        e <= 10,
        f <= 51,
    ensures
        mask_spec(e, f, mask_spec(e, f, bits)) == mask_spec(e, f, bits),
{
    if bits & !sign_mask() == 0 {
        assert({
            let m = bits & 0x8000_0000_0000_0000u64;
            m & !0x8000_0000_0000_0000u64 == 0 && m & 0x8000_0000_0000_0000u64 == m
        }) by (bit_vector);
    } else {
        assert({
            let sign = bits & (0x8000_0000_0000_0000u64 | 0x4000_0000_0000_0000u64);
            let ewin = (((1u64 << ((10 - e) as u64)) - 1) as u64) << ((52 + e) as u64);
            let fwin = !(((1u64 << ((51 - f) as u64)) - 1) as u64) & 0x000f_ffff_ffff_ffffu64;
            let exp = if bits & 0x4000_0000_0000_0000u64 != 0 {
                if bits & ewin != 0 {
                    (((1u64 << ((e + 52) as u64)) - 1) as u64) & 0x7ff0_0000_0000_0000u64
                } else {
                    bits & 0x7ff0_0000_0000_0000u64
                }
            } else {
                if bits & ewin != ewin {
                    ewin
                } else {
                    bits & 0x7ff0_0000_0000_0000u64
                }
            };
            let m = sign | exp | (bits & fwin);
            let exp_m = if m & 0x4000_0000_0000_0000u64 != 0 {
                if m & ewin != 0 {
                    (((1u64 << ((e + 52) as u64)) - 1) as u64) & 0x7ff0_0000_0000_0000u64
                } else {
                    m & 0x7ff0_0000_0000_0000u64
                }
            } else {
                if m & ewin != ewin {
                    ewin
                } else {
                    m & 0x7ff0_0000_0000_0000u64
                }
            };
            (m & !0x8000_0000_0000_0000u64 != 0 && ((m & (0x8000_0000_0000_0000u64
                | 0x4000_0000_0000_0000u64)) | exp_m | (m & fwin)) == m) || (m
                & !0x8000_0000_0000_0000u64 == 0 && (m & 0x8000_0000_0000_0000u64) == m)
        }) by (bit_vector)
            requires
                e <= 10,
                f <= 51,
                bits & !0x8000_0000_0000_0000u64 != 0,
        ;
    }
}

} // verus!
