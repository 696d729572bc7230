//! Bit-level access to 32-bit register words, as the TRB and register
//! builders need it. The in-place updates are done by the `bit_field`
//! crate; each call is specified here by a closed-form formula.

use vstd::prelude::*;

use bit_field::BitField;

verus! {

/// Mask with bits `lo ..= hi` set, as a 64-bit value.
pub open spec fn mask64(lo: u32, hi: u32) -> u64
    recommends
        lo <= hi < 32,
{
    (((1u64 << ((hi - lo + 1) as u64)) - 1) as u64) << (lo as u64)
}

/// `x` with bits `lo ..= hi` replaced by the low bits of `v`.
pub open spec fn spec_set_bits32(x: u32, lo: u32, hi: u32, v: u32) -> u32
    recommends
        lo <= hi < 32,
        (v as u64) < (1u64 << ((hi - lo + 1) as u64)),
{
    (((x as u64) & !mask64(lo, hi)) | (((v as u64) << (lo as u64)) & mask64(lo, hi))) as u32
}

/// `x` with bit `bit` forced to `value`.
pub open spec fn spec_set_bit32(x: u32, bit: u32, value: bool) -> u32
    recommends
        bit < 32,
{
    if value {
        ((x as u64) | (1u64 << (bit as u64))) as u32
    } else {
        ((x as u64) & !(1u64 << (bit as u64))) as u32
    }
}

/// Bits `lo ..= hi` of `x`, shifted down to the low end.
pub open spec fn spec_get_bits32(x: u32, lo: u32, hi: u32) -> u32
    recommends
        lo <= hi < 32,
{
    (((x as u64) & mask64(lo, hi)) >> (lo as u64)) as u32
}

/// Bit `bit` of `x`.
pub open spec fn spec_get_bit32(x: u32, bit: u32) -> bool
    recommends
        bit < 32,
{
    (x as u64) & (1u64 << (bit as u64)) != 0
}

/// Relies on `bit_field::BitField::set_bits` for `u32`: it writes `v`
/// into the inclusive bit range `lo ..= hi` of `x` and leaves every other
/// bit; it panics when `v` does not fit the range, which the precondition
/// rules out.
#[verifier::external_body]
pub fn u32_set_bits(x: u32, lo: u32, hi: u32, v: u32) -> (r: u32)
    requires
        lo <= hi < 32,
        (v as u64) < (1u64 << ((hi - lo + 1) as u64)),
    ensures
        r == spec_set_bits32(x, lo, hi, v),
{
    let mut y = x;
    y.set_bits((lo as usize)..=(hi as usize), v);
    y
}

/// Relies on `bit_field::BitField::set_bit` for `u32`: it forces one bit
/// of `x` to `value` and leaves every other bit.
#[verifier::external_body]
pub fn u32_set_bit(x: u32, bit: u32, value: bool) -> (r: u32)
    requires
        bit < 32,
    ensures
        r == spec_set_bit32(x, bit, value),
{
    let mut y = x;
    y.set_bit(bit as usize, value);
    y
}

/// Relies on `bit_field::BitField::get_bits` for `u32`: it returns the
/// inclusive bit range `lo ..= hi` of `x`, shifted down to the low end.
#[verifier::external_body]
pub fn u32_get_bits(x: u32, lo: u32, hi: u32) -> (r: u32)
    requires
        lo <= hi < 32,
    ensures
        r == spec_get_bits32(x, lo, hi),
{
    x.get_bits((lo as usize)..=(hi as usize))
}

/// Relies on `bit_field::BitField::get_bit` for `u32`: it returns one
/// bit of `x`.
#[verifier::external_body]
pub fn u32_get_bit(x: u32, bit: u32) -> (r: bool)
    requires
        bit < 32,
    ensures
        r == spec_get_bit32(x, bit),
{
    x.get_bit(bit as usize)
}

/// The shift amounts used for register fields, evaluated: `1 << n` for
/// each field width that occurs.
pub proof fn lemma_bit_widths()
    ensures
        1u64 << 1u64 == 0x2,
        1u64 << 2u64 == 0x4,
        1u64 << 3u64 == 0x8,
        1u64 << 4u64 == 0x10,
        1u64 << 5u64 == 0x20,
        1u64 << 6u64 == 0x40,
        1u64 << 7u64 == 0x80,
        1u64 << 8u64 == 0x100,
        1u64 << 16u64 == 0x1_0000,
        1u64 << 17u64 == 0x2_0000,
        1u64 << 32u64 == 0x1_0000_0000,
{
    assert(1u64 << 1u64 == 0x2 && 1u64 << 2u64 == 0x4 && 1u64 << 3u64 == 0x8 && 1u64 << 4u64
        == 0x10 && 1u64 << 5u64 == 0x20 && 1u64 << 6u64 == 0x40 && 1u64 << 7u64 == 0x80 && 1u64
        << 8u64 == 0x100 && 1u64 << 16u64 == 0x1_0000 && 1u64 << 17u64 == 0x2_0000 && 1u64
        << 32u64 == 0x1_0000_0000) by (bit_vector);
}

} // verus!
