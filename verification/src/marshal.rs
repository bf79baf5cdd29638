//! Buffer marshaling: moving byte buffers across the boundary between the
//! guest and its host. [`copy_in`] copies a borrowed memory span into a
//! buffer the guest owns; [`hand_off`] moves an owned buffer's contents into
//! a freshly allocated region and passes the release obligation to whoever
//! now holds the region. `hand_off` consumes the buffer, so any later use of
//! it is a compile-time error.

use crate::arena::Arena;
use crate::arena::region_bytes;
use crate::arena::regions_disjoint;
use vstd::prelude::*;

verus! {

/// A (pointer, length) description of a span of the guest's byte space. The
/// region does not own the bytes it points at; ownership is tracked by the
/// calling convention around it.
#[derive(Clone, Copy, PartialEq, Eq, Structural)]
pub struct LinearMemoryRegion {
    pub pointer: u32,
    pub length: u32,
}

impl LinearMemoryRegion {
    /// Whether the region lies within a byte space of the given size.
    pub open spec fn in_bounds(self, capacity: int) -> bool {
        self.pointer + self.length <= capacity
    }
}

/// A heap-resident byte buffer the guest currently owns.
pub struct OwnedBuffer {
    data: Vec<u8>,
}

impl View for OwnedBuffer {
    type V = Seq<u8>;

    closed spec fn view(&self) -> Seq<u8> {
        self.data@
    }
}

impl OwnedBuffer {
    /// Wraps bytes the guest already owns into a buffer.
    pub fn from_vec(data: Vec<u8>) -> (b: OwnedBuffer)
        ensures
            b@ == data@,
    {
        OwnedBuffer { data }
    }

    /// The buffer's length.
    pub fn len(&self) -> (n: usize)
        ensures
            n == self@.len(),
    {
        self.data.len()
    }

    /// Borrows the buffer's bytes; ownership stays with the buffer.
    pub fn as_bytes(&self) -> (s: &[u8])
        ensures
            s@ == self@,
    {
        self.data.as_slice()
    }
}

/// Copies the bytes of a borrowed region into a new buffer the guest owns.
/// The source region is only read: it is neither changed nor released, and
/// its owner keeps the release obligation.
pub fn copy_in(arena: &Arena, region: LinearMemoryRegion) -> (b: OwnedBuffer)
    requires
        region.in_bounds(arena.capacity()),
    ensures
        b@ == region_bytes(arena.bytes(), region.pointer, region.length),
{
    OwnedBuffer { data: arena.read(region.pointer, region.length) }
}

/// Hands an owned buffer off: allocates a region for it, moves the bytes in,
/// and returns the region whose release is now the caller's obligation. The
/// buffer is consumed, so it cannot be used after the transfer. `None`
/// exactly when the arena cannot hold the buffer; the arena is then
/// unchanged.
pub fn hand_off(arena: &mut Arena, buffer: OwnedBuffer) -> (r: Option<LinearMemoryRegion>)
    requires
        old(arena).wf(),
        buffer@.len() <= u32::MAX,
    ensures
        final(arena).wf(),
        final(arena).capacity() == old(arena).capacity(),
        final(arena).bytes().len() == old(arena).bytes().len(),
        r is Some <==> old(arena).can_allocate(buffer@.len() as u32),
        match r {
            Some(region) => {
                &&& region.length == buffer@.len()
                &&& region.in_bounds(final(arena).capacity())
                &&& !old(arena).live_allocations().dom().contains(region.pointer)
                &&& final(arena).live_allocations() == old(arena).live_allocations().insert(
                    region.pointer,
                    region.length,
                )
                &&& region_bytes(final(arena).bytes(), region.pointer, region.length) == buffer@
                &&& forall|i: int|
                    0 <= i < old(arena).bytes().len() && !(region.pointer <= i < region.pointer
                        + region.length) ==> final(arena).bytes()[i] == old(arena).bytes()[i]
                &&& forall|p: u32| #[trigger]
                    old(arena).live_allocations().dom().contains(p) ==> regions_disjoint(
                        region.pointer,
                        region.length,
                        p,
                        old(arena).live_allocations()[p],
                    )
                &&& forall|p: u32|
                    #[trigger] old(arena).live_allocations().dom().contains(p) && p
                        != region.pointer ==> region_bytes(
                        final(arena).bytes(),
                        p,
                        old(arena).live_allocations()[p],
                    ) == region_bytes(old(arena).bytes(), p, old(arena).live_allocations()[p])
            },
            None => *final(arena) == *old(arena),
        },
{
    let ghost pre = *arena;
    let length: u32 = buffer.data.len() as u32;
    match arena.allocate(length) {
        Some(pointer) => {
            let ghost mid = *arena;
            arena.write(pointer, buffer.data.as_slice());
            proof {
                assert forall|p: u32|
                    #[trigger] pre.live_allocations().dom().contains(p) && p
                        != pointer implies region_bytes(
                    arena.bytes(),
                    p,
                    pre.live_allocations()[p],
                ) == region_bytes(pre.bytes(), p, pre.live_allocations()[p]) by {
                    assert(mid.live_allocations().dom().contains(p));
                }
            }
            Some(LinearMemoryRegion { pointer, length })
        },
        None => None,
    }
}

/// The numeric arguments the guest passes to the host's log import for a
/// borrowed text span: the region's pointer and length, unchanged. No
/// ownership moves; the caller keeps the region and its release obligation.
pub fn log_params(message: &LinearMemoryRegion) -> (r: (u32, u32))
    ensures
        r.0 == message.pointer,
        r.1 == message.length,
{
    (message.pointer, message.length)
}

} // verus!
