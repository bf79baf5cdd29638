//! The guest's exported entry points, composed over the modeled linear
//! memory: the host writes input into a region it allocated, calls a
//! transform with (pointer, length), and receives a packed handle to a fresh
//! output region it now owns and must eventually release with the exact
//! length encoded in the handle. The input region is only borrowed: its
//! bytes are unchanged and its release obligation stays with the host.

use crate::arena::Arena;
use crate::arena::region_bytes;
use crate::arena::regions_disjoint;
use crate::boundary::pack;
use crate::boundary::unpack_length;
use crate::boundary::unpack_pointer;
use crate::codec::hex_decoding;
use crate::codec::hex_encoding;
use crate::codec::try_decode;
use crate::codec::valid_hex_input;
use crate::marshal::LinearMemoryRegion;
use crate::marshal::OwnedBuffer;
use crate::marshal::copy_in;
use crate::marshal::hand_off;
use vstd::prelude::*;

verus! {

/// Encodes the bytes of a borrowed input region as lowercase hexadecimal
/// text in a freshly allocated region, and returns that region packed into a
/// handle. `None` exactly when the output (twice the input length) cannot be
/// represented or allocated; the arena is then unchanged. Every byte outside
/// the output region — the input region and every other live allocation
/// included — is unchanged.
pub fn encode_export(arena: &mut Arena, pointer: u32, length: u32) -> (r: Option<u64>)
    requires
        old(arena).wf(),
        pointer + length <= old(arena).capacity(),
    ensures
        final(arena).wf(),
        final(arena).capacity() == old(arena).capacity(),
        r is Some <==> 2 * length <= u32::MAX && old(arena).can_allocate((2 * length) as u32),
        match r {
            Some(handle) => {
                let out_ptr = unpack_pointer(handle);
                let out_len = unpack_length(handle);
                &&& out_len == 2 * length
                &&& out_ptr + out_len <= final(arena).capacity()
                &&& !old(arena).live_allocations().dom().contains(out_ptr)
                &&& final(arena).live_allocations() == old(arena).live_allocations().insert(
                    out_ptr,
                    out_len,
                )
                &&& region_bytes(final(arena).bytes(), out_ptr, out_len) == hex_encoding(
                    region_bytes(old(arena).bytes(), pointer, length),
                )
                &&& forall|i: int|
                    0 <= i < old(arena).bytes().len() && !(out_ptr <= i < out_ptr + out_len)
                        ==> final(arena).bytes()[i] == old(arena).bytes()[i]
                &&& forall|p: u32| #[trigger]
                    old(arena).live_allocations().dom().contains(p) ==> regions_disjoint(
                        out_ptr,
                        out_len,
                        p,
                        old(arena).live_allocations()[p],
                    )
            },
            None => *final(arena) == *old(arena),
        },
{
    let input = copy_in(arena, LinearMemoryRegion { pointer, length });
    if length > u32::MAX / 2 {
        return None;
    }
    let output = crate::codec::encode(input.as_bytes());
    let buffer = OwnedBuffer::from_vec(output);
    match hand_off(arena, buffer) {
        Some(region) => Some(pack(region.pointer, region.length)),
        None => None,
    }
}

/// Decodes the even-length hexadecimal text of a borrowed input region into
/// a freshly allocated region of half its length, and returns that region
/// packed into a handle. `None` exactly when the input is malformed — odd
/// length or a character that is no hexadecimal digit — or the output cannot
/// be allocated; the arena is then unchanged, so malformed input never
/// yields a buffer. Every byte outside the output region is unchanged.
pub fn decode_export(arena: &mut Arena, pointer: u32, length: u32) -> (r: Option<u64>)
    requires
        old(arena).wf(),
        pointer + length <= old(arena).capacity(),
    ensures
        final(arena).wf(),
        final(arena).capacity() == old(arena).capacity(),
        r is Some <==> valid_hex_input(region_bytes(old(arena).bytes(), pointer, length)) && old(
            arena,
        ).can_allocate(length / 2),
        match r {
            Some(handle) => {
                let out_ptr = unpack_pointer(handle);
                let out_len = unpack_length(handle);
                &&& out_len == length / 2
                &&& out_ptr + out_len <= final(arena).capacity()
                &&& !old(arena).live_allocations().dom().contains(out_ptr)
                &&& final(arena).live_allocations() == old(arena).live_allocations().insert(
                    out_ptr,
                    out_len,
                )
                &&& region_bytes(final(arena).bytes(), out_ptr, out_len) == hex_decoding(
                    region_bytes(old(arena).bytes(), pointer, length),
                )
                &&& forall|i: int|
                    0 <= i < old(arena).bytes().len() && !(out_ptr <= i < out_ptr + out_len)
                        ==> final(arena).bytes()[i] == old(arena).bytes()[i]
                &&& forall|p: u32| #[trigger]
                    old(arena).live_allocations().dom().contains(p) ==> regions_disjoint(
                        out_ptr,
                        out_len,
                        p,
                        old(arena).live_allocations()[p],
                    )
            },
            None => *final(arena) == *old(arena),
        },
{
    let input = copy_in(arena, LinearMemoryRegion { pointer, length });
    match try_decode(input.as_bytes()) {
        Some(output) => {
            let buffer = OwnedBuffer::from_vec(output);
            match hand_off(arena, buffer) {
                Some(region) => Some(pack(region.pointer, region.length)),
                None => None,
            }
        },
        None => None,
    }
}

} // verus!
