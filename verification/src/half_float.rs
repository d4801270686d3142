//! Packing of IEEE 754 single-precision bit patterns into half-precision
//! bit patterns, used when staging higher-bit-depth samples into the
//! half-float texture layouts of the catalog.
//!
//! The conversion works on raw bit patterns, so it needs no floating-point
//! arithmetic: the host hands in `f32::to_bits` of a value and receives the
//! 16 bits of the closest representable half-precision value (rounded toward
//! zero, with overflow mapped to infinity and underflow flushed to zero).

use vstd::prelude::*;

verus! {

/// Sign bit of the single-precision pattern, already moved to the
/// half-precision sign position (bit 15).
pub open spec fn spec_f32_sign16(bits: u32) -> u32 {
    (bits >> 16) & 0x8000
}

/// Biased 8-bit exponent field of the single-precision pattern.
pub open spec fn spec_f32_exponent(bits: u32) -> u32 {
    (bits >> 23) & 0xff
}

/// 23-bit mantissa field of the single-precision pattern.
pub open spec fn spec_f32_mantissa(bits: u32) -> u32 {
    bits & 0x7fffff
}

/// Half-precision bit pattern corresponding to a single-precision bit
/// pattern.  The exponent is re-biased from 127 to 15: fields of 143 and
/// above overflow to infinity, fields of 112 and below flush to a signed
/// zero, NaN stays NaN (with a quiet mantissa bit), and in-range values keep
/// their top 10 mantissa bits.
pub open spec fn spec_f16_bits(bits: u32) -> u16 {
    let sign = spec_f32_sign16(bits);
    let e = spec_f32_exponent(bits);
    let m = spec_f32_mantissa(bits);
    if e == 0xff {
        if m != 0 {
            (sign | 0x7c00 | 0x200) as u16
        } else {
            (sign | 0x7c00) as u16
        }
    } else if e >= 143 {
        (sign | 0x7c00) as u16
    } else if e <= 112 {
        sign as u16
    } else {
        (sign | (((e - 112) as u32) << 10) | (m >> 13)) as u16
    }
}

/// Pack a single-precision bit pattern into the corresponding
/// half-precision bit pattern.
pub fn f16_bits_from_f32_bits(bits: u32) -> (r: u16)
    ensures
        r == spec_f16_bits(bits),
{
    let sign = (bits >> 16) & 0x8000;
    let exponent = (bits >> 23) & 0xff;
    let mantissa = bits & 0x7fffff;

    if exponent == 0xff {
        // Infinity or NaN; a nonzero mantissa keeps a quiet NaN payload bit.
        if mantissa != 0 {
            return (sign | 0x7c00 | 0x200) as u16;
        }
        return (sign | 0x7c00) as u16;
    }

    if exponent >= 143 {
        // Overflow: the re-biased exponent would reach 31, so return infinity.
        return (sign | 0x7c00) as u16;
    }
    if exponent <= 112 {
        // Underflow: the re-biased exponent would reach 0, so return zero.
        return sign as u16;
    }

    let half_exponent = exponent - 112;
    let half_mantissa = mantissa >> 13;
    (sign | (half_exponent << 10) | half_mantissa) as u16
}

} // verus!
