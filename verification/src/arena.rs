//! The allocator: a bump/arena strategy over the guest's linear memory. The
//! arena owns the modeled byte space, hands out regions that are disjoint
//! from every other live allocation, and reclaims the whole space once every
//! allocation has been released with its exact original size. A ghost map
//! from pointer to requested size tracks which allocations are live.

use vstd::pervasive::VecAdditionalExecFns;
use vstd::prelude::*;

verus! {

broadcast use {vstd::set::group_set_axioms, vstd::map::group_map_axioms};

/// The number of bytes an allocation of the requested size occupies in the
/// arena: a zero-size request still occupies one byte, so that every live
/// allocation has a distinct pointer.
pub open spec fn footprint(size: u32) -> int {
    if size == 0 {
        1int
    } else {
        size as int
    }
}

/// Whether the byte ranges of two (pointer, size) regions share no byte.
pub open spec fn regions_disjoint(p1: u32, s1: u32, p2: u32, s2: u32) -> bool {
    p1 + s1 <= p2 || p2 + s2 <= p1
}

/// The bytes a (pointer, length) region denotes within a memory image.
pub open spec fn region_bytes(mem: Seq<u8>, pointer: u32, length: u32) -> Seq<u8> {
    mem.subrange(pointer as int, pointer + length)
}

/// Linear memory together with a bump allocator over it. `next` is the first
/// byte no allocation has reached yet; it returns to zero once every live
/// allocation has been released.
pub struct Arena {
    mem: Vec<u8>,
    next: usize,
    outstanding: usize,
    live: Ghost<Map<u32, u32>>,
}

impl Arena {
    /// The size of the arena's byte space.
    pub open spec fn capacity(self) -> int {
        self.bytes().len() as int
    }

    /// The arena's byte space.
    pub closed spec fn bytes(self) -> Seq<u8> {
        self.mem@
    }

    /// The live allocations, each pointer mapped to the size it was
    /// requested with, which `release` must echo exactly.
    pub closed spec fn live_allocations(self) -> Map<u32, u32> {
        self.live@
    }

    /// The first byte of the arena no allocation has reached yet.
    pub closed spec fn free_start(self) -> int {
        self.next as int
    }

    /// Whether a request of the given size fits in the space left.
    pub open spec fn can_allocate(self, size: u32) -> bool {
        self.free_start() + footprint(size) <= self.capacity()
    }

    /// Well-formedness: every live allocation lies below the bump mark and
    /// within capacity, live allocations are pairwise disjoint, and the
    /// bookkeeping counters agree with the ghost map.
    pub closed spec fn wf(self) -> bool {
        &&& self.next <= self.mem@.len()
        &&& self.mem@.len() <= u32::MAX
        &&& self.live@.dom().finite()
        &&& self.live@.dom().len() == self.outstanding
        &&& self.outstanding <= self.next
        &&& forall|p: u32| #[trigger]
            self.live@.dom().contains(p) ==> p + footprint(self.live@[p]) <= self.next
        &&& forall|p1: u32, p2: u32|
            self.live@.dom().contains(p1) && self.live@.dom().contains(p2) && p1 != p2
                ==> p1 + footprint(self.live@[p1]) <= p2 || p2 + footprint(self.live@[p2]) <= p1
    }

    /// Creates an arena over a zero-filled byte space of the given size.
    pub fn new(capacity: u32) -> (a: Arena)
        ensures
            a.wf(),
            a.capacity() == capacity,
            a.live_allocations() == Map::<u32, u32>::empty(),
            a.free_start() == 0,
            a.bytes() == Seq::new(capacity as nat, |i: int| 0u8),
    {
        let mut mem: Vec<u8> = Vec::new();
        let mut i: u32 = 0;
        while i < capacity
            invariant
                i <= capacity,
                mem@.len() == i,
                forall|j: int| 0 <= j < i ==> mem@[j] == 0u8,
            decreases capacity - i,
        {
            mem.push(0);
            i = i + 1;
        }
        proof {
            assert(mem@ =~= Seq::new(capacity as nat, |i: int| 0u8));
        }
        Arena { mem, next: 0, outstanding: 0, live: Ghost(Map::empty()) }
    }

    /// Allocates a region of at least `size` bytes, disjoint from every
    /// other live allocation, and returns its pointer; `None` exactly when
    /// the space left cannot hold the request. The bytes of the arena are
    /// not touched.
    pub fn allocate(&mut self, size: u32) -> (r: Option<u32>)
        requires
            old(self).wf(),
        ensures
            final(self).wf(),
            final(self).capacity() == old(self).capacity(),
            final(self).bytes() == old(self).bytes(),
            r is Some <==> old(self).can_allocate(size),
            match r {
                Some(pointer) => {
                    &&& pointer == old(self).free_start()
                    &&& final(self).free_start() == old(self).free_start() + footprint(size)
                    &&& !old(self).live_allocations().dom().contains(pointer)
                    &&& final(self).live_allocations() == old(self).live_allocations().insert(
                        pointer,
                        size,
                    )
                    &&& pointer + size <= final(self).capacity()
                    &&& forall|p: u32| #[trigger]
                        old(self).live_allocations().dom().contains(p) ==> regions_disjoint(
                            pointer,
                            size,
                            p,
                            old(self).live_allocations()[p],
                        )
                },
                None => *final(self) == *old(self),
            },
    {
        let amount: u32 = if size == 0 {
            1
        } else {
            size
        };
        if (amount as usize) <= self.mem.len() - self.next {
            let pointer: u32 = self.next as u32;
            self.next = self.next + (amount as usize);
            self.outstanding = self.outstanding + 1;
            self.live = Ghost(self.live@.insert(pointer, size));
            Some(pointer)
        } else {
            None
        }
    }

    /// Releases a live allocation, echoing the exact size it was made with.
    /// Once no allocation is left, the whole space is reclaimed. The bytes
    /// of the arena are not touched.
    pub fn release(&mut self, pointer: u32, size: u32)
        requires
            old(self).wf(),
            old(self).live_allocations().contains_pair(pointer, size),
        ensures
            final(self).wf(),
            final(self).capacity() == old(self).capacity(),
            final(self).bytes() == old(self).bytes(),
            final(self).live_allocations() == old(self).live_allocations().remove(pointer),
            final(self).free_start() == if final(self).live_allocations().dom().len() == 0 {
                0int
            } else {
                old(self).free_start()
            },
    {
        self.outstanding = self.outstanding - 1;
        self.live = Ghost(self.live@.remove(pointer));
        if self.outstanding == 0 {
            proof {
                self.live@.dom().lemma_len0_is_empty();
            }
            self.next = 0;
        }
    }

    /// Copies `data` into a live region through its pointer. Requires the
    /// data to fit the size the region was allocated with; every byte
    /// outside the written range is unchanged, so no other live allocation
    /// is affected.
    pub fn write(&mut self, pointer: u32, data: &[u8])
        requires
            old(self).wf(),
            old(self).live_allocations().dom().contains(pointer),
            data@.len() <= old(self).live_allocations()[pointer],
        ensures
            final(self).wf(),
            final(self).capacity() == old(self).capacity(),
            final(self).live_allocations() == old(self).live_allocations(),
            final(self).free_start() == old(self).free_start(),
            final(self).bytes().len() == old(self).bytes().len(),
            final(self).bytes().subrange(pointer as int, pointer + data@.len()) == data@,
            forall|i: int|
                0 <= i < old(self).bytes().len() && !(pointer <= i < pointer + data@.len())
                    ==> final(self).bytes()[i] == old(self).bytes()[i],
            forall|p: u32|
                #[trigger] old(self).live_allocations().dom().contains(p) && p != pointer
                    ==> region_bytes(final(self).bytes(), p, old(self).live_allocations()[p])
                    == region_bytes(old(self).bytes(), p, old(self).live_allocations()[p]),
    {
        let ghost snap = *self;
        let mem_len: usize = self.mem.len();
        let base: usize = pointer as usize;
        let mut j: usize = 0;
        while j < data.len()
            invariant
                self.next == snap.next,
                self.outstanding == snap.outstanding,
                self.live@ == snap.live@,
                self.mem@.len() == snap.mem@.len(),
                mem_len == self.mem@.len(),
                base == pointer as int,
                pointer + data@.len() <= self.mem@.len(),
                j <= data@.len(),
                forall|i: int|
                    0 <= i < self.mem@.len() && !(pointer <= i < pointer + j) ==> self.mem@[i]
                        == snap.mem@[i],
                forall|i: int| 0 <= i < j ==> self.mem@[pointer + i] == data@[i],
            decreases data@.len() - j,
        {
            self.mem.set(base + j, data[j]);
            j = j + 1;
        }
        proof {
            assert(self.mem@.subrange(pointer as int, pointer + data@.len()) =~= data@);
            assert forall|p: u32|
                #[trigger] snap.live@.dom().contains(p) && p != pointer implies region_bytes(
                self.mem@,
                p,
                snap.live@[p],
            ) == region_bytes(snap.mem@, p, snap.live@[p]) by {
                assert(region_bytes(self.mem@, p, snap.live@[p]) =~= region_bytes(
                    snap.mem@,
                    p,
                    snap.live@[p],
                ));
            }
        }
    }

    /// Reads `length` bytes starting at `pointer` into a fresh buffer; the
    /// source region is only borrowed and is not touched.
    pub fn read(&self, pointer: u32, length: u32) -> (data: Vec<u8>)
        requires
            pointer + length <= self.bytes().len(),
        ensures
            data@ == region_bytes(self.bytes(), pointer, length),
    {
        let mut data: Vec<u8> = Vec::new();
        let mem_len: usize = self.mem.len();
        let base: usize = pointer as usize;
        let mut j: usize = 0;
        while j < length as usize
            invariant
                mem_len == self.mem@.len(),
                base == pointer as int,
                pointer + length <= self.mem@.len(),
                j <= length,
                data@.len() == j,
                forall|i: int| 0 <= i < j ==> data@[i] == self.mem@[pointer + i],
            decreases length - j,
        {
            data.push(self.mem[base + j]);
            j = j + 1;
        }
        proof {
            assert(data@ =~= region_bytes(self.bytes(), pointer, length));
        }
        data
    }
}

/// Every live allocation of a well-formed arena lies within its capacity.
pub proof fn lemma_live_region_in_bounds(a: Arena, p: u32)
    requires
        a.wf(),
        a.live_allocations().dom().contains(p),
    ensures
        p + a.live_allocations()[p] <= a.free_start(),
        p + a.live_allocations()[p] <= a.capacity(),
{
}

/// Any two distinct live allocations of a well-formed arena are disjoint:
/// however allocation and release are interleaved, no region handed out can
/// corrupt another that is still live.
pub proof fn lemma_live_regions_disjoint(a: Arena, p1: u32, p2: u32)
    requires
        a.wf(),
        a.live_allocations().dom().contains(p1),
        a.live_allocations().dom().contains(p2),
        p1 != p2,
    ensures
        regions_disjoint(p1, a.live_allocations()[p1], p2, a.live_allocations()[p2]),
{
}

} // verus!
