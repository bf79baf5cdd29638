//! Boundary codec: bidirectional conversion between a (pointer, length) pair
//! and a single 64-bit handle, for interfaces that allow only one numeric
//! return value. The pointer sits in the high 32 bits, the length in the low
//! 32 bits.

use vstd::prelude::*;

verus! {

/// The packed form of a (pointer, length) pair: pointer high, length low.
pub open spec fn pack_spec(pointer: u32, length: u32) -> u64 {
    ((pointer as u64) << 32) | (length as u64)
}

/// The pointer half of a packed handle.
pub open spec fn unpack_pointer(handle: u64) -> u32 {
    (handle >> 32) as u32
}

/// The length half of a packed handle.
pub open spec fn unpack_length(handle: u64) -> u32 {
    (handle & 0xffff_ffff) as u32
}

/// Packs a pointer and a length into one 64-bit handle.
pub fn pack(pointer: u32, length: u32) -> (handle: u64)
    ensures
        handle == pack_spec(pointer, length),
        unpack_pointer(handle) == pointer,
        unpack_length(handle) == length,
{
    proof {
        lemma_unpack_pack(pointer, length);
    }
    ((pointer as u64) << 32) | (length as u64)
}

/// Unpacks a 64-bit handle into the (pointer, length) pair it was packed
/// from; the exact inverse of [`pack`].
pub fn unpack(handle: u64) -> (r: (u32, u32))
    ensures
        r.0 == unpack_pointer(handle),
        r.1 == unpack_length(handle),
        handle == pack_spec(r.0, r.1),
{
    assert(handle >> 32 <= 0xffff_ffffu64) by (bit_vector);
    assert(handle & 0xffff_ffff <= 0xffff_ffffu64) by (bit_vector);
    let pointer: u32 = (handle >> 32) as u32;
    let length: u32 = (handle & 0xffff_ffff) as u32;
    proof {
        lemma_pack_unpack(handle);
    }
    (pointer, length)
}

/// Unpacking is the exact inverse of packing: every pointer and length within
/// the 32-bit range come back unchanged.
pub proof fn lemma_unpack_pack(pointer: u32, length: u32)
    by (bit_vector)
    ensures
        unpack_pointer(pack_spec(pointer, length)) == pointer,
        unpack_length(pack_spec(pointer, length)) == length,
{
}

/// Packing is also the inverse of unpacking: every 64-bit handle is the
/// packed form of its own two halves.
pub proof fn lemma_pack_unpack(handle: u64)
    by (bit_vector)
    ensures
        pack_spec(unpack_pointer(handle), unpack_length(handle)) == handle,
{
}

} // verus!
