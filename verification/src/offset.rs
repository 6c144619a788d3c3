//! Offset codec: core-select field and signed 16-bit curve offsets.
//!
//! The controller addresses a core through bits 20-31 of argument word 0:
//! bit 3 of the core index selects the die (CCD) and bits 0-2 the core
//! within it, with the die bit packed further left.  A curve offset is
//! written as the low 16 bits of the same word, two's complement; on a
//! read the controller returns a full-width signed word, so decoding is a
//! plain 32-bit reinterpretation (deliberately asymmetric with the masked
//! 16-bit write path).

use vstd::prelude::*;

verus! {

/// The controller's core-select field for a core index: bit 3 of the index
/// is the die selector, bits 0-2 the core within the die, both shifted into
/// bits 20-31 of the argument word.
pub open spec fn spec_core_select(core_id: u32) -> u32 {
    (((core_id & 8) << 5) | (core_id & 7)) << 20
}

/// The low 16 bits of `v`'s two's-complement representation, zero-extended.
pub open spec fn low16_bits(v: i32) -> u32 {
    (v as u32) & 0xffff
}

/// A core-select field with an offset packed into its low 16 bits.  Bits of
/// the offset outside the 16-bit range are silently discarded.
pub open spec fn spec_pack_offset(core_select: u32, offset: i32) -> u32 {
    core_select | low16_bits(offset)
}

/// A result word reinterpreted as a full-width signed value.
pub open spec fn as_signed(w: u32) -> i32 {
    w as i32
}

/// The low 16 bits of `v` reinterpreted as a signed 16-bit value: what the
/// controller holds after an offset is written, widened back to 32 bits.
pub open spec fn sign_extend_16(v: i32) -> i32 {
    (v as u32 as u16) as i16 as i32
}

/// Computes the core-select field for a core index.
pub fn core_select(core_id: u32) -> (r: u32)
    ensures
        r == spec_core_select(core_id),
{
    (((core_id & 8) << 5) | (core_id & 7)) << 20
}

/// Packs a signed offset into the low 16 bits of a core-select word.
pub fn pack_offset(core_select: u32, offset: i32) -> (r: u32)
    ensures
        r == spec_pack_offset(core_select, offset),
{
    core_select | ((#[verifier::truncate] (offset as u32)) & 0xffff)
}

/// Reinterprets a result word as a signed offset.
pub fn unpack_offset(w: u32) -> (r: i32)
    ensures
        r == as_signed(w),
{
    #[verifier::truncate] (w as i32)
}

/// The core-select field depends only on the low four bits of the core
/// index: indices that agree on bits 0-3 encode the same core.
pub proof fn lemma_core_select_low_bits(i: u32, j: u32)
    requires
        i & 15 == j & 15,
    ensures
        spec_core_select(i) == spec_core_select(j),
{
    assert(i & 15 == j & 15 ==> (((i & 8) << 5) | (i & 7)) << 20 == (((j & 8) << 5) | (j & 7))
        << 20) by (bit_vector);
}

/// Packing an offset and reinterpreting the packed word recovers the value
/// whenever bit 15 of the offset's low half is clear (in particular for
/// offsets in `0..=32767`).  A packed word zero-extends the stored 16 bits,
/// so for an offset with bit 15 set the reinterpretation differs from
/// `sign_extend_16`; the controller itself returns sign-extended words.
pub proof fn lemma_pack_unpack(v: i32)
    requires
        low16_bits(v) < 0x8000,
    ensures
        as_signed(spec_pack_offset(0, v)) == sign_extend_16(v),
{
    assert((v as u32) & 0xffff < 0x8000 ==> ((0u32 | ((v as u32) & 0xffff)) as i32) == ((v
        as u32 as u16) as i16 as i32)) by (bit_vector);
}

/// What unpacking a packed word yields for every offset: the low 16 bits of
/// the offset, zero-extended (the documented lossy write path).
pub proof fn lemma_unpack_pack_exact(v: i32)
    ensures
        as_signed(spec_pack_offset(0, v)) == low16_bits(v) as i32,
        0 <= low16_bits(v) < 0x10000,
{
    assert(((0u32 | ((v as u32) & 0xffff)) as i32) == (((v as u32) & 0xffff) as i32) && ((v
        as u32) & 0xffff) < 0x10000) by (bit_vector);
}

/// `sign_extend_16` depends only on the low 16 bits of its argument, and
/// agrees with the identity exactly on `-32768..=32767`.
pub proof fn lemma_sign_extend_16_low_bits(v: i32)
    ensures
        sign_extend_16(v) == if low16_bits(v) < 0x8000 {
            low16_bits(v) as i32
        } else {
            (low16_bits(v) - 0x10000) as i32
        },
        -32768 <= v <= 32767 ==> sign_extend_16(v) == v,
{
    assert(((v as u32) & 0xffff < 0x8000 ==> ((v as u32 as u16) as i16 as i32) == (((v as u32)
        & 0xffff) as i32)) && ((v as u32) & 0xffff >= 0x8000 ==> ((v as u32 as u16) as i16
        as i32) == ((((v as u32) & 0xffff) - 0x10000) as i32))) by (bit_vector);
    assert((-32768 <= v <= 32767) ==> ((v as u32 as u16) as i16 as i32) == v) by (bit_vector);
}

} // verus!
