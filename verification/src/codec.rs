//! Little-endian word codec.
//!
//! The controller exchanges a six-word argument block as 24 bytes and a
//! status word as 4 bytes, both little-endian.  These conversions are pure;
//! buffer sizes are fixed by the types, so there is no failure mode.

use vstd::prelude::*;

verus! {

broadcast use vstd::array::group_array_axioms;

/// The 32-bit word stored little-endian at byte offset `off` of `b`.
pub open spec fn le_word_at(b: Seq<u8>, off: int) -> u32 {
    (b[off] as u32) | ((b[off + 1] as u32) << 8) | ((b[off + 2] as u32) << 16) | ((b[off + 3]
        as u32) << 24)
}

/// Byte `k` (least significant first) of the little-endian encoding of `w`.
pub open spec fn le_byte_of(w: u32, k: int) -> u8 {
    ((w >> (8 * k)) & 0xff) as u8
}

/// Decodes one little-endian 32-bit word from a 4-byte buffer.
pub fn decode32(b: &[u8; 4]) -> (w: u32)
    ensures
        w == le_word_at(b@, 0),
{
    (b[0] as u32) | ((b[1] as u32) << 8) | ((b[2] as u32) << 16) | ((b[3] as u32) << 24)
}

/// Encodes one 32-bit word as its 4 little-endian bytes.
pub fn encode32(w: u32) -> (b: [u8; 4])
    ensures
        forall|k: int| 0 <= k < 4 ==> b@[k] == le_byte_of(w, k),
{
    proof {
        assert((w & 0xff) < 256 && ((w >> 8) & 0xff) < 256 && ((w >> 16) & 0xff) < 256 && ((w
            >> 24) & 0xff) < 256 && (w >> 0) == w) by (bit_vector);
    }
    let mut b: [u8; 4] = [0u8; 4];
    b[0] = (w & 0xff) as u8;
    b[1] = ((w >> 8) & 0xff) as u8;
    b[2] = ((w >> 16) & 0xff) as u8;
    b[3] = ((w >> 24) & 0xff) as u8;
    proof {
        assert forall|k: int| 0 <= k < 4 implies b@[k] == le_byte_of(w, k) by {
            if k == 0 {
                assert(b@[0] == le_byte_of(w, 0));
            } else if k == 1 {
                assert(b@[1] == le_byte_of(w, 1));
            } else if k == 2 {
                assert(b@[2] == le_byte_of(w, 2));
            } else {
                assert(b@[3] == le_byte_of(w, 3));
            }
        }
    }
    b
}

/// Decodes a 24-byte buffer into six little-endian 32-bit words.
pub fn decode192(b: &[u8; 24]) -> (ws: [u32; 6])
    ensures
        forall|i: int| 0 <= i < 6 ==> ws@[i] == le_word_at(b@, 4 * i),
{
    let mut ws: [u32; 6] = [0u32; 6];
    let mut i: usize = 0;
    while i < 6
        invariant
            i <= 6,
            forall|j: int| 0 <= j < i ==> ws@[j] == le_word_at(b@, 4 * j),
        decreases 6 - i,
    {
        let off = 4 * i;
        ws[i] = (b[off] as u32) | ((b[off + 1] as u32) << 8) | ((b[off + 2] as u32) << 16) | ((
        b[off + 3] as u32) << 24);
        i += 1;
    }
    ws
}

/// Encodes six 32-bit words as a 24-byte little-endian buffer.
pub fn encode192(ws: &[u32; 6]) -> (b: [u8; 24])
    ensures
        forall|n: int| 0 <= n < 24 ==> b@[n] == le_byte_of(ws@[n / 4], n % 4),
{
    let mut b: [u8; 24] = [0u8; 24];
    let mut i: usize = 0;
    while i < 6
        invariant
            i <= 6,
            forall|n: int| 0 <= n < 4 * i ==> b@[n] == le_byte_of(ws@[n / 4], n % 4),
        decreases 6 - i,
    {
        let e = encode32(ws[i]);
        b[4 * i] = e[0];
        b[4 * i + 1] = e[1];
        b[4 * i + 2] = e[2];
        b[4 * i + 3] = e[3];
        proof {
            assert forall|n: int| 0 <= n < 4 * (i + 1) implies b@[n] == le_byte_of(
                ws@[n / 4],
                n % 4,
            ) by {
                if n < 4 * i {
                } else {
                    assert(n / 4 == i as int && n % 4 == n - 4 * i);
                }
            }
        }
        i += 1;
    }
    b
}

} // verus!
