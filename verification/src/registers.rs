//! Register addresses of the AMD RAPL MSR map and the decoding of the
//! energy-unit exponent from the power-unit register.

use vstd::prelude::*;
use vstd::arithmetic::power2::pow2;
use vstd::bits::lemma_u64_pow2_no_overflow;
use vstd::bits::lemma_u64_shl_is_mul;

verus! {

/// Address of the power-unit register.
pub const AMD_MSR_PWR_UNIT: u64 = 0xC0010299;

/// Address of the per-core energy counter register.
pub const AMD_MSR_CORE_ENERGY: u64 = 0xC001029A;

/// Address of the per-package energy counter register.
pub const AMD_MSR_PACKAGE_ENERGY: u64 = 0xC001029B;

/// Mask selecting the energy-unit exponent bits (bits 8 through 12) of the
/// power-unit register.
pub const AMD_ENERGY_UNIT_MASK: u64 = 0x1F00;

/// The energy-unit exponent held in bits 8 through 12 of a raw power-unit
/// register value. The energy unit is `2^-E` joules per count.
pub open spec fn energy_exponent(raw: u64) -> u64 {
    (raw & AMD_ENERGY_UNIT_MASK) >> 8
}

/// Extracts the energy-unit exponent from a raw power-unit register value.
/// The exponent occupies five bits, so it is below 32.
pub fn decode_energy_exponent(raw: u64) -> (e: u64)
    ensures
        e == energy_exponent(raw),
        e < 32,
{
    let e = (raw & AMD_ENERGY_UNIT_MASK) >> 8;
    proof {
        assert((raw & 0x1F00u64) >> 8u64 < 32) by (bit_vector);
    }
    e
}

/// Computes `2^e`, the denominator of the energy unit: one raw count is
/// `1 / unit_denominator(e)` joules.
pub fn unit_denominator(e: u64) -> (d: u64)
    requires
        e < 32,
    ensures
        d == pow2(e as nat),
        d >= 1,
{
    proof {
        lemma_u64_pow2_no_overflow(e as nat);
        lemma_u64_shl_is_mul(1u64, e);
    }
    1u64 << e
}

} // verus!
