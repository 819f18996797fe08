//! The memory-allocation strategies: a general-purpose free list with
//! coalescing, a linear bump arena with whole-arena reset, a fixed-block
//! pool, and a power-of-two buddy allocator. Each strategy manages one
//! arena of device memory; the arena's bytes are modelled by offsets.

use vstd::prelude::*;

use crate::errors::{AllocatorCreationError, OutOfMemoryError};

verus! {

/// One allocated region of an arena.
#[derive(Clone, Copy, Debug, PartialEq, Eq, Structural)]
pub struct Allocation {
    pub offset: u64,
    pub size: u64,
}

/// One entry of the block-size policy an allocator is constructed with:
/// which heap the arena sits on and how large its block is.
#[derive(Clone, Copy, Debug, PartialEq, Eq, Structural)]
pub struct BlockSizePolicy {
    pub heap_index: u32,
    pub block_size: u64,
}

/// A policy entry is valid for a device exactly when it names an existing
/// heap and asks for a nonempty block.
pub open spec fn policy_entry_valid(entry: BlockSizePolicy, heap_count: u32) -> bool {
    entry.heap_index < heap_count && entry.block_size > 0
}

/// Validates a block-size policy against the number of heaps the device
/// reports. Succeeds exactly when every entry names an existing heap and a
/// nonempty block size.
pub fn validate_block_sizes(block_sizes: &Vec<BlockSizePolicy>, heap_count: u32) -> (r: Result<
    (),
    AllocatorCreationError,
>)
    ensures
        r is Ok <==> forall|i: int|
            0 <= i < block_sizes@.len() ==> policy_entry_valid(
                #[trigger] block_sizes@[i],
                heap_count,
            ),
        r matches Err(e) ==> (e == AllocatorCreationError::HeapOutOfRange ==> exists|i: int|
            0 <= i < block_sizes@.len() && (#[trigger] block_sizes@[i]).heap_index >= heap_count),
        r matches Err(e) ==> (e == AllocatorCreationError::ZeroBlockSize ==> exists|i: int|
            0 <= i < block_sizes@.len() && (#[trigger] block_sizes@[i]).block_size == 0),
        r matches Err(e) ==> e == AllocatorCreationError::HeapOutOfRange || e
            == AllocatorCreationError::ZeroBlockSize,
{
    let n = block_sizes.len();
    for i in 0..n
        invariant
            n == block_sizes@.len(),
            forall|k: int|
                0 <= k < i ==> policy_entry_valid(#[trigger] block_sizes@[k], heap_count),
    {
        let entry = block_sizes[i];
        if entry.heap_index >= heap_count {
            return Err(AllocatorCreationError::HeapOutOfRange);
        }
        if entry.block_size == 0 {
            return Err(AllocatorCreationError::ZeroBlockSize);
        }
    }
    Ok(())
}

/// Plans the arena of an allocator from the block-size policy: the policy
/// is validated against the device's heap count, and the first entry's
/// block size becomes the arena's capacity. Fails exactly when the policy
/// is empty or an entry is invalid.
pub fn plan_allocator_arena(block_sizes: &Vec<BlockSizePolicy>, heap_count: u32) -> (r: Result<
    u64,
    AllocatorCreationError,
>)
    ensures
        r is Ok <==> block_sizes@.len() > 0 && forall|i: int|
            0 <= i < block_sizes@.len() ==> policy_entry_valid(
                #[trigger] block_sizes@[i],
                heap_count,
            ),
        r matches Ok(capacity) ==> capacity == block_sizes@[0].block_size,
        r matches Err(e) ==> (e == AllocatorCreationError::EmptyPolicy <==> block_sizes@.len()
            == 0),
{
    if block_sizes.len() == 0 {
        return Err(AllocatorCreationError::EmptyPolicy);
    }
    match validate_block_sizes(block_sizes, heap_count) {
        Ok(()) => Ok(block_sizes[0].block_size),
        Err(e) => Err(e),
    }
}

/// Whether some region of the list covers the byte at `addr`.
pub open spec fn covers(regions: Seq<Allocation>, addr: int) -> bool {
    exists|i: int|
        0 <= i < regions.len() && (#[trigger] regions[i]).offset <= addr < regions[i].offset
            + regions[i].size
}

/// A linear bump arena: allocation advances a cursor, nothing is freed
/// individually, and `reset` reclaims the whole arena at once. Intended
/// for short-lived, per-frame allocations.
#[derive(Clone, Copy, Debug, PartialEq, Eq, Structural)]
pub struct BumpAllocator {
    pub capacity: u64,
    pub next: u64,
}

impl BumpAllocator {
    /// The cursor never passes the end of the arena.
    pub open spec fn wf(self) -> bool {
        self.next <= self.capacity
    }

    /// A fresh arena of `capacity` bytes.
    pub fn new(capacity: u64) -> (r: Self)
        ensures
            r == (BumpAllocator { capacity, next: 0 }),
            r.wf(),
    {
        BumpAllocator { capacity, next: 0 }
    }

    /// Bumps the cursor: the allocation starts at the old cursor and the
    /// cursor advances past it. Fails exactly when the remaining space is
    /// too small, leaving the arena untouched.
    pub fn allocate(&mut self, size: u64) -> (r: Result<Allocation, OutOfMemoryError>)
        requires
            old(self).wf(),
        ensures
            final (self).wf(),
            final (self).capacity == old(self).capacity,
            r is Ok <==> old(self).next + size <= old(self).capacity,
            r matches Ok(a) ==> a == (Allocation { offset: old(self).next, size }) && final (
            self).next == old(self).next + size,
            r is Err ==> *final (self) == *old(self) && r == Err::<
                Allocation,
                OutOfMemoryError,
            >(OutOfMemoryError::OutOfMemory),
    {
        if size > self.capacity - self.next {
            return Err(OutOfMemoryError::OutOfMemory);
        }
        let offset = self.next;
        self.next = self.next + size;
        Ok(Allocation { offset, size })
    }

    /// Reclaims the whole arena: every earlier allocation is invalidated
    /// and the cursor returns to the start.
    pub fn reset(&mut self)
        ensures
            *final (self) == (BumpAllocator { capacity: old(self).capacity, next: 0 }),
            final (self).wf(),
    {
        self.next = 0;
    }
}

/// A general-purpose free-list arena: allocation takes the front of the
/// first free region large enough (first fit), and freeing coalesces the
/// region with adjacent free regions, so fragmentation stays low. The
/// suitable default for arbitrary-lifetime buffers and images.
pub struct FreeListAllocator {
    pub capacity: u64,
    pub free_list: Vec<Allocation>,
}

/// Free regions are nonempty, lie within the arena, are sorted by offset,
/// and are separated by at least one allocated byte: adjacent free regions
/// are always coalesced into one.
pub open spec fn free_list_wf(fl: Seq<Allocation>, capacity: u64) -> bool {
    &&& forall|i: int|
        0 <= i < fl.len() ==> (#[trigger] fl[i]).size > 0 && fl[i].offset + fl[i].size <= capacity
    &&& forall|i: int|
        0 <= i && i + 1 < fl.len() ==> (#[trigger] fl[i]).offset + fl[i].size < fl[i + 1].offset
}

impl FreeListAllocator {
    /// The free list is well formed for this arena's capacity.
    pub open spec fn wf(self) -> bool {
        free_list_wf(self.free_list@, self.capacity)
    }

    /// A fresh arena of `capacity` bytes, all of it one free region.
    pub fn new(capacity: u64) -> (r: Self)
        ensures
            r.wf(),
            r.capacity == capacity,
            forall|o: int| covers(r.free_list@, o) <==> 0 <= o < capacity,
    {
        let mut free_list: Vec<Allocation> = Vec::new();
        if capacity > 0 {
            free_list.push(Allocation { offset: 0, size: capacity });
        }
        let r = FreeListAllocator { capacity, free_list };
        proof {
            if capacity > 0 {
                assert(r.free_list@.len() == 1);
                assert(r.free_list@[0] == (Allocation { offset: 0, size: capacity }));
            } else {
                assert(r.free_list@.len() == 0);
            }
            assert forall|o: int| covers(r.free_list@, o) <==> 0 <= o < capacity by {
                if 0 <= o < capacity {
                    assert(r.free_list@[0].offset <= o < r.free_list@[0].offset
                        + r.free_list@[0].size);
                }
            }
        }
        r
    }

    /// First fit: takes `size` bytes from the front of the first free
    /// region that is large enough; the region shrinks or, if consumed
    /// whole, leaves the list. Fails exactly when no free region is large
    /// enough, leaving the arena untouched.
    pub fn allocate(&mut self, size: u64) -> (r: Result<Allocation, OutOfMemoryError>)
        requires
            old(self).wf(),
            size > 0,
        ensures
            final (self).wf(),
            final (self).capacity == old(self).capacity,
            r is Err <==> forall|i: int|
                0 <= i < old(self).free_list@.len() ==> (#[trigger] old(
                    self,
                ).free_list@[i]).size < size,
            r is Err ==> *final (self) == *old(self) && r == Err::<Allocation, OutOfMemoryError>(
                OutOfMemoryError::OutOfMemory,
            ),
            r matches Ok(a) ==> exists|j: int|
                {
                    &&& 0 <= j < old(self).free_list@.len()
                    &&& (#[trigger] old(self).free_list@[j]).size >= size
                    &&& forall|k: int|
                        0 <= k < j ==> (#[trigger] old(self).free_list@[k]).size < size
                    &&& a == (Allocation { offset: old(self).free_list@[j].offset, size })
                    &&& final (self).free_list@ == if old(self).free_list@[j].size == size {
                        old(self).free_list@.remove(j)
                    } else {
                        old(self).free_list@.update(
                            j,
                            Allocation {
                                offset: (old(self).free_list@[j].offset + size) as u64,
                                size: (old(self).free_list@[j].size - size) as u64,
                            },
                        )
                    }
                },
    {
        let n = self.free_list.len();
        for j in 0..n
            invariant
                n == self.free_list@.len(),
                self.wf(),
                *self == *old(self),
                size > 0,
                forall|k: int| 0 <= k < j ==> (#[trigger] self.free_list@[k]).size < size,
        {
            let region = self.free_list[j];
            if region.size >= size {
                if region.size == size {
                    self.free_list.remove(j);
                    proof {
                        let fl = old(self).free_list@;
                        let new = self.free_list@;
                        assert forall|i: int|
                            0 <= i && i + 1 < new.len() implies (#[trigger] new[i]).offset + new[i].size
                            < new[i + 1].offset by {
                            if i + 1 < j as int {
                                assert(new[i] == fl[i] && new[i + 1] == fl[i + 1]);
                            } else if i + 1 == j as int {
                                assert(new[i] == fl[i] && new[i + 1] == fl[j + 1]);
                                assert(fl[i].offset + fl[i].size < fl[j as int].offset);
                            } else {
                                assert(new[i] == fl[i + 1] && new[i + 1] == fl[i + 2]);
                            }
                        }
                    }
                    return Ok(Allocation { offset: region.offset, size });
                } else {
                    let shrunk = Allocation {
                        offset: region.offset + size,
                        size: region.size - size,
                    };
                    self.free_list.set(j, shrunk);
                    proof {
                        let fl = old(self).free_list@;
                        let new = self.free_list@;
                        assert forall|i: int|
                            0 <= i && i + 1 < new.len() implies (#[trigger] new[i]).offset + new[i].size
                            < new[i + 1].offset by {
                            assert(fl[i].offset + fl[i].size < fl[i + 1].offset);
                        }
                    }
                    return Ok(Allocation { offset: region.offset, size });
                }
            }
        }
        Err(OutOfMemoryError::OutOfMemory)
    }

    /// Returns a region to the arena and coalesces it with any free
    /// region it touches. The region must be one this arena handed out:
    /// nonempty, within the arena, and not overlapping any free region.
    /// Afterwards a byte is free exactly when it was free before or lies
    /// in the returned region.
    pub fn free(&mut self, allocation: Allocation)
        requires
            old(self).wf(),
            allocation.size > 0,
            allocation.offset + allocation.size <= old(self).capacity,
            forall|i: int|
                0 <= i < old(self).free_list@.len() ==> (allocation.offset >= (#[trigger] old(
                    self,
                ).free_list@[i]).offset + old(self).free_list@[i].size || allocation.offset
                    + allocation.size <= old(self).free_list@[i].offset),
        ensures
            final (self).wf(),
            final (self).capacity == old(self).capacity,
            forall|o: int|
                #[trigger] covers(final (self).free_list@, o) <==> covers(
                    old(self).free_list@,
                    o,
                ) || (allocation.offset <= o < allocation.offset + allocation.size),
    {
        let n = self.free_list.len();
        let mut idx: usize = 0;
        while idx < n && self.free_list[idx].offset < allocation.offset
            invariant
                n == self.free_list@.len(),
                idx <= n,
                *self == *old(self),
                self.wf(),
                forall|k: int|
                    0 <= k < idx ==> (#[trigger] self.free_list@[k]).offset < allocation.offset,
            decreases n - idx,
        {
            idx = idx + 1;
        }
        proof {
            let fl = self.free_list@;
            // every region from idx on starts at or after the freed one;
            // with disjointness and nonempty sizes it starts strictly after
            assert forall|k: int|
                idx <= k < fl.len() implies allocation.offset + allocation.size <= (
            #[trigger] fl[k]).offset by {
                if k == idx as int {
                } else {
                    assert(fl[idx as int].offset + fl[idx as int].size < fl[k].offset || fl[idx as int].offset
                        <= fl[k].offset) by {
                        lemma_sorted_regions(fl, idx as int, k);
                    }
                }
                assert(fl[k].offset >= allocation.offset);
                assert(allocation.offset >= fl[k].offset + fl[k].size || allocation.offset
                    + allocation.size <= fl[k].offset);
            }
        }
        let merge_left = idx > 0 && {
            let left = self.free_list[idx - 1];
            left.offset + left.size == allocation.offset
        };
        let merge_right = idx < n && allocation.offset + allocation.size
            == self.free_list[idx].offset;
        if merge_left && merge_right {
            let left = self.free_list[idx - 1];
            let right = self.free_list[idx];
            self.free_list.set(
                idx - 1,
                Allocation { offset: left.offset, size: left.size + allocation.size + right.size },
            );
            self.free_list.remove(idx);
            proof {
                lemma_free_merge_both(
                    old(self).free_list@,
                    self.free_list@,
                    allocation,
                    idx as int,
                    self.capacity,
                );
            }
        } else if merge_left {
            let left = self.free_list[idx - 1];
            self.free_list.set(
                idx - 1,
                Allocation { offset: left.offset, size: left.size + allocation.size },
            );
            proof {
                lemma_free_merge_left(
                    old(self).free_list@,
                    self.free_list@,
                    allocation,
                    idx as int,
                    self.capacity,
                );
            }
        } else if merge_right {
            let right = self.free_list[idx];
            self.free_list.set(
                idx,
                Allocation { offset: allocation.offset, size: allocation.size + right.size },
            );
            proof {
                lemma_free_merge_right(
                    old(self).free_list@,
                    self.free_list@,
                    allocation,
                    idx as int,
                    self.capacity,
                );
            }
        } else {
            self.free_list.insert(idx, allocation);
            proof {
                lemma_free_insert(
                    old(self).free_list@,
                    self.free_list@,
                    allocation,
                    idx as int,
                    self.capacity,
                );
            }
        }
    }
}

/// In a well-formed free list, region starts are strictly increasing.
proof fn lemma_sorted_regions(fl: Seq<Allocation>, i: int, j: int)
    requires
        0 <= i <= j < fl.len(),
        forall|k: int|
            0 <= k && k + 1 < fl.len() ==> (#[trigger] fl[k]).offset + fl[k].size < fl[k + 1].offset,
        forall|k: int| 0 <= k < fl.len() ==> (#[trigger] fl[k]).size > 0,
    ensures
        fl[i].offset <= fl[j].offset,
        i < j ==> fl[i].offset + fl[i].size < fl[j].offset,
    decreases j - i,
{
    if i < j {
        lemma_sorted_regions(fl, i + 1, j);
        assert(fl[i].offset + fl[i].size < fl[i + 1].offset);
    }
}

/// The freed region touches no free region and sits, strictly separated,
/// between its neighbours at the insertion point: inserting it keeps the
/// list well formed, and frees exactly its bytes.
#[verifier::rlimit(60)]
proof fn lemma_free_insert(
    fl: Seq<Allocation>,
    new: Seq<Allocation>,
    a: Allocation,
    idx: int,
    capacity: u64,
)
    requires
        free_list_wf(fl, capacity),
        a.size > 0,
        a.offset + a.size <= capacity,
        0 <= idx <= fl.len(),
        forall|k: int| 0 <= k < idx ==> (#[trigger] fl[k]).offset < a.offset,
        forall|k: int| idx <= k < fl.len() ==> a.offset + a.size <= (#[trigger] fl[k]).offset,
        forall|k: int|
            0 <= k < fl.len() ==> (a.offset >= (#[trigger] fl[k]).offset + fl[k].size || a.offset
                + a.size <= fl[k].offset),
        idx > 0 ==> fl[idx - 1].offset + fl[idx - 1].size != a.offset,
        idx < fl.len() ==> a.offset + a.size != fl[idx].offset,
        new == fl.insert(idx, a),
    ensures
        free_list_wf(new, capacity),
        forall|o: int|
            #[trigger] covers(new, o) <==> covers(fl, o) || a.offset <= o < a.offset + a.size,
{
    fl.insert_ensures(idx, a);
    assert(new.len() == fl.len() + 1);
    assert(forall|k: int| 0 <= k < idx ==> #[trigger] new[k] == fl[k]);
    assert(new[idx] == a);
    assert forall|k: int| idx < k < new.len() implies #[trigger] new[k] == fl[k - 1] by {
        assert(fl.insert(idx, a)[k - 1 + 1] == fl[k - 1]);
    }
    if idx > 0 {
        assert(a.offset >= fl[idx - 1].offset + fl[idx - 1].size);
    }
    assert forall|i: int|
        0 <= i && i + 1 < new.len() implies (#[trigger] new[i]).offset + new[i].size < new[i
        + 1].offset by {
        if i + 1 < idx {
            assert(new[i] == fl[i] && new[i + 1] == fl[i + 1]);
        } else if i + 1 == idx {
            assert(new[i] == fl[i] && new[i + 1] == a);
        } else if i == idx {
            assert(new[i] == a && new[i + 1] == fl[i]);
        } else {
            assert(new[i] == fl[i - 1] && new[i + 1] == fl[i]);
        }
    }
    assert forall|o: int|
        #[trigger] covers(new, o) <==> covers(fl, o) || a.offset <= o < a.offset + a.size by {
        if covers(new, o) {
            let i = choose|i: int|
                0 <= i < new.len() && (#[trigger] new[i]).offset <= o < new[i].offset
                    + new[i].size;
            if i < idx {
                assert(fl[i].offset <= o < fl[i].offset + fl[i].size);
            } else if i == idx {
            } else {
                assert(fl[i - 1].offset <= o < fl[i - 1].offset + fl[i - 1].size);
            }
        }
        if covers(fl, o) {
            let i = choose|i: int|
                0 <= i < fl.len() && (#[trigger] fl[i]).offset <= o < fl[i].offset + fl[i].size;
            if i < idx {
                assert(new[i].offset <= o < new[i].offset + new[i].size);
            } else {
                assert(new[i + 1].offset <= o < new[i + 1].offset + new[i + 1].size);
            }
        }
        if a.offset <= o < a.offset + a.size {
            assert(new[idx].offset <= o < new[idx].offset + new[idx].size);
        }
    }
}

/// The freed region starts exactly where its left neighbour ends: growing
/// that neighbour keeps the list well formed and frees exactly the
/// region's bytes.
#[verifier::rlimit(60)]
proof fn lemma_free_merge_left(
    fl: Seq<Allocation>,
    new: Seq<Allocation>,
    a: Allocation,
    idx: int,
    capacity: u64,
)
    requires
        free_list_wf(fl, capacity),
        a.size > 0,
        a.offset + a.size <= capacity,
        0 < idx <= fl.len(),
        forall|k: int| 0 <= k < idx ==> (#[trigger] fl[k]).offset < a.offset,
        forall|k: int| idx <= k < fl.len() ==> a.offset + a.size <= (#[trigger] fl[k]).offset,
        fl[idx - 1].offset + fl[idx - 1].size == a.offset,
        idx < fl.len() ==> a.offset + a.size != fl[idx].offset,
        new == fl.update(
            idx - 1,
            Allocation {
                offset: fl[idx - 1].offset,
                size: (fl[idx - 1].size + a.size) as u64,
            },
        ),
    ensures
        free_list_wf(new, capacity),
        forall|o: int|
            #[trigger] covers(new, o) <==> covers(fl, o) || a.offset <= o < a.offset + a.size,
{
    assert(new.len() == fl.len());
    assert(forall|k: int| 0 <= k < new.len() && k != idx - 1 ==> #[trigger] new[k] == fl[k]);
    assert(new[idx - 1].offset + new[idx - 1].size == a.offset + a.size);
    assert forall|i: int|
        0 <= i && i + 1 < new.len() implies (#[trigger] new[i]).offset + new[i].size < new[i
        + 1].offset by {
        if i == idx - 1 {
            assert(new[i + 1] == fl[idx]);
        } else if i + 1 == idx - 1 {
            assert(new[i] == fl[i]);
            assert(fl[i].offset + fl[i].size < fl[i + 1].offset);
            assert(new[i + 1].offset == fl[i + 1].offset);
        } else {
            assert(new[i] == fl[i] && new[i + 1] == fl[i + 1]);
        }
    }
    assert forall|o: int|
        #[trigger] covers(new, o) <==> covers(fl, o) || a.offset <= o < a.offset + a.size by {
        if covers(new, o) {
            let i = choose|i: int|
                0 <= i < new.len() && (#[trigger] new[i]).offset <= o < new[i].offset
                    + new[i].size;
            if i == idx - 1 {
                if o < a.offset {
                    assert(fl[i].offset <= o < fl[i].offset + fl[i].size);
                }
            } else {
                assert(fl[i].offset <= o < fl[i].offset + fl[i].size);
            }
        }
        if covers(fl, o) {
            let i = choose|i: int|
                0 <= i < fl.len() && (#[trigger] fl[i]).offset <= o < fl[i].offset + fl[i].size;
            assert(new[i].offset <= o < new[i].offset + new[i].size);
        }
        if a.offset <= o < a.offset + a.size {
            assert(new[idx - 1].offset <= o < new[idx - 1].offset + new[idx - 1].size);
        }
    }
}

/// The freed region ends exactly where its right neighbour starts:
/// growing that neighbour backwards keeps the list well formed and frees
/// exactly the region's bytes.
#[verifier::rlimit(60)]
proof fn lemma_free_merge_right(
    fl: Seq<Allocation>,
    new: Seq<Allocation>,
    a: Allocation,
    idx: int,
    capacity: u64,
)
    requires
        free_list_wf(fl, capacity),
        a.size > 0,
        a.offset + a.size <= capacity,
        0 <= idx < fl.len(),
        forall|k: int| 0 <= k < idx ==> (#[trigger] fl[k]).offset < a.offset,
        forall|k: int| idx <= k < fl.len() ==> a.offset + a.size <= (#[trigger] fl[k]).offset,
        a.offset + a.size == fl[idx].offset,
        idx > 0 ==> fl[idx - 1].offset + fl[idx - 1].size != a.offset,
        idx > 0 ==> (a.offset >= fl[idx - 1].offset + fl[idx - 1].size || a.offset + a.size <= fl[
            idx - 1].offset),
        new == fl.update(
            idx,
            Allocation { offset: a.offset, size: (a.size + fl[idx].size) as u64 },
        ),
    ensures
        free_list_wf(new, capacity),
        forall|o: int|
            #[trigger] covers(new, o) <==> covers(fl, o) || a.offset <= o < a.offset + a.size,
{
    assert(new.len() == fl.len());
    assert(forall|k: int| 0 <= k < new.len() && k != idx ==> #[trigger] new[k] == fl[k]);
    assert(new[idx].offset + new[idx].size == fl[idx].offset + fl[idx].size);
    if idx > 0 {
        assert(fl[idx - 1].offset < a.offset);
        assert(a.offset >= fl[idx - 1].offset + fl[idx - 1].size);
    }
    assert forall|i: int|
        0 <= i && i + 1 < new.len() implies (#[trigger] new[i]).offset + new[i].size < new[i
        + 1].offset by {
        if i == idx {
            assert(new[i + 1] == fl[i + 1]);
            assert(fl[i].offset + fl[i].size < fl[i + 1].offset);
        } else if i + 1 == idx {
            assert(new[i] == fl[i]);
        } else {
            assert(new[i] == fl[i] && new[i + 1] == fl[i + 1]);
        }
    }
    assert forall|o: int|
        #[trigger] covers(new, o) <==> covers(fl, o) || a.offset <= o < a.offset + a.size by {
        if covers(new, o) {
            let i = choose|i: int|
                0 <= i < new.len() && (#[trigger] new[i]).offset <= o < new[i].offset
                    + new[i].size;
            if i == idx {
                if o >= fl[idx].offset {
                    assert(fl[i].offset <= o < fl[i].offset + fl[i].size);
                }
            } else {
                assert(fl[i].offset <= o < fl[i].offset + fl[i].size);
            }
        }
        if covers(fl, o) {
            let i = choose|i: int|
                0 <= i < fl.len() && (#[trigger] fl[i]).offset <= o < fl[i].offset + fl[i].size;
            assert(new[i].offset <= o < new[i].offset + new[i].size);
        }
        if a.offset <= o < a.offset + a.size {
            assert(new[idx].offset <= o < new[idx].offset + new[idx].size);
        }
    }
}

/// The freed region exactly bridges its two neighbours: merging all three
/// into one region keeps the list well formed and frees exactly the
/// region's bytes.
#[verifier::rlimit(60)]
proof fn lemma_free_merge_both(
    fl: Seq<Allocation>,
    new: Seq<Allocation>,
    a: Allocation,
    idx: int,
    capacity: u64,
)
    requires
        free_list_wf(fl, capacity),
        a.size > 0,
        a.offset + a.size <= capacity,
        0 < idx < fl.len(),
        forall|k: int| 0 <= k < idx ==> (#[trigger] fl[k]).offset < a.offset,
        forall|k: int| idx <= k < fl.len() ==> a.offset + a.size <= (#[trigger] fl[k]).offset,
        fl[idx - 1].offset + fl[idx - 1].size == a.offset,
        a.offset + a.size == fl[idx].offset,
        new == fl.update(
            idx - 1,
            Allocation {
                offset: fl[idx - 1].offset,
                size: (fl[idx - 1].size + a.size + fl[idx].size) as u64,
            },
        ).remove(idx),
    ensures
        free_list_wf(new, capacity),
        forall|o: int|
            #[trigger] covers(new, o) <==> covers(fl, o) || a.offset <= o < a.offset + a.size,
{
    let mid = fl.update(
        idx - 1,
        Allocation {
            offset: fl[idx - 1].offset,
            size: (fl[idx - 1].size + a.size + fl[idx].size) as u64,
        },
    );
    assert(new.len() == fl.len() - 1);
    assert(forall|k: int| 0 <= k < idx - 1 ==> #[trigger] new[k] == fl[k]);
    assert(new[idx - 1] == mid[idx - 1]);
    assert(forall|k: int| idx <= k < new.len() ==> #[trigger] new[k] == fl[k + 1]);
    assert(new[idx - 1].offset + new[idx - 1].size == fl[idx].offset + fl[idx].size);
    assert forall|i: int|
        0 <= i && i + 1 < new.len() implies (#[trigger] new[i]).offset + new[i].size < new[i
        + 1].offset by {
        if i == idx - 1 {
            assert(new[i + 1] == fl[idx + 1]);
            assert(fl[idx].offset + fl[idx].size < fl[idx + 1].offset);
        } else if i + 1 == idx - 1 {
            assert(new[i] == fl[i]);
            assert(fl[i].offset + fl[i].size < fl[i + 1].offset);
            assert(new[i + 1].offset == fl[i + 1].offset);
        } else if i + 1 < idx - 1 {
            assert(new[i] == fl[i] && new[i + 1] == fl[i + 1]);
        } else {
            assert(new[i] == fl[i + 1] && new[i + 1] == fl[i + 2]);
        }
    }
    assert forall|o: int|
        #[trigger] covers(new, o) <==> covers(fl, o) || a.offset <= o < a.offset + a.size by {
        if covers(new, o) {
            let i = choose|i: int|
                0 <= i < new.len() && (#[trigger] new[i]).offset <= o < new[i].offset
                    + new[i].size;
            if i == idx - 1 {
                if o < a.offset {
                    assert(fl[idx - 1].offset <= o < fl[idx - 1].offset + fl[idx - 1].size);
                } else if o >= a.offset + a.size {
                    assert(fl[idx].offset <= o < fl[idx].offset + fl[idx].size);
                }
            } else if i < idx - 1 {
                assert(fl[i].offset <= o < fl[i].offset + fl[i].size);
            } else {
                assert(fl[i + 1].offset <= o < fl[i + 1].offset + fl[i + 1].size);
            }
        }
        if covers(fl, o) {
            let i = choose|i: int|
                0 <= i < fl.len() && (#[trigger] fl[i]).offset <= o < fl[i].offset + fl[i].size;
            if i < idx - 1 {
                assert(new[i].offset <= o < new[i].offset + new[i].size);
            } else if i == idx - 1 || i == idx {
                assert(new[idx - 1].offset <= o < new[idx - 1].offset + new[idx - 1].size);
            } else {
                assert(new[i - 1].offset <= o < new[i - 1].offset + new[i - 1].size);
            }
        }
        if a.offset <= o < a.offset + a.size {
            assert(new[idx - 1].offset <= o < new[idx - 1].offset + new[idx - 1].size);
        }
    }
}

/// One block of a pool arena.
#[derive(Clone, Copy, Debug, PartialEq, Eq, Structural)]
pub struct PoolBlock {
    pub offset: u64,
    pub used: bool,
}

/// A fixed-block pool: the arena is divided into equally sized blocks and
/// every allocation takes exactly one block. Intended for uniform
/// allocations such as identical parameter buffers.
pub struct PoolAllocator {
    pub block_size: u64,
    pub blocks: Vec<PoolBlock>,
}

impl PoolAllocator {
    /// Blocks are nonempty, laid out back to back from the start of the
    /// arena, and the arena end fits in the address space.
    pub open spec fn wf(self) -> bool {
        &&& self.block_size > 0
        &&& self.blocks@.len() * self.block_size <= u64::MAX
        &&& forall|i: int|
            0 <= i < self.blocks@.len() ==> (#[trigger] self.blocks@[i]).offset == i
                * self.block_size
    }

    /// A fresh pool of `block_count` free blocks of `block_size` bytes.
    pub fn new(block_size: u64, block_count: u64) -> (r: Self)
        requires
            block_size > 0,
            block_count * block_size <= u64::MAX,
        ensures
            r.wf(),
            r.block_size == block_size,
            r.blocks@.len() == block_count,
            forall|i: int| 0 <= i < r.blocks@.len() ==> !(#[trigger] r.blocks@[i]).used,
    {
        let mut blocks: Vec<PoolBlock> = Vec::new();
        let mut next_offset: u64 = 0;
        for i in 0..block_count
            invariant
                block_size > 0,
                block_count * block_size <= u64::MAX,
                blocks@.len() == i,
                next_offset == i * block_size,
                forall|k: int|
                    0 <= k < blocks@.len() ==> (#[trigger] blocks@[k]).offset == k * block_size
                        && !blocks@[k].used,
        {
            proof {
                assert((i + 1) * block_size == i * block_size + block_size) by (nonlinear_arith);
                assert((i + 1) * block_size <= block_count * block_size) by (nonlinear_arith)
                    requires
                        i + 1 <= block_count,
                        block_size > 0,
                ;
            }
            blocks.push(PoolBlock { offset: next_offset, used: false });
            next_offset = next_offset + block_size;
        }
        PoolAllocator { block_size, blocks }
    }

    /// Takes the first free block. Fails with `BlockSizeExceeded` when the
    /// request is larger than a block, and with `OutOfMemory` exactly when
    /// every block is in use; the pool is untouched on failure.
    pub fn allocate(&mut self, size: u64) -> (r: Result<Allocation, OutOfMemoryError>)
        requires
            old(self).wf(),
        ensures
            final (self).wf(),
            final (self).block_size == old(self).block_size,
            final (self).blocks@.len() == old(self).blocks@.len(),
            size > old(self).block_size ==> r == Err::<Allocation, OutOfMemoryError>(
                OutOfMemoryError::BlockSizeExceeded,
            ) && *final (self) == *old(self),
            size <= old(self).block_size ==> ((r matches Err(e) && e
                == OutOfMemoryError::OutOfMemory) <==> forall|i: int|
                0 <= i < old(self).blocks@.len() ==> (#[trigger] old(self).blocks@[i]).used),
            r is Err ==> *final (self) == *old(self),
            r matches Ok(a) ==> exists|j: int|
                {
                    &&& 0 <= j < old(self).blocks@.len()
                    &&& !(#[trigger] old(self).blocks@[j]).used
                    &&& forall|k: int| 0 <= k < j ==> (#[trigger] old(self).blocks@[k]).used
                    &&& a == (Allocation { offset: old(self).blocks@[j].offset, size })
                    &&& final (self).blocks@ == old(self).blocks@.update(
                        j,
                        PoolBlock { offset: old(self).blocks@[j].offset, used: true },
                    )
                },
    {
        if size > self.block_size {
            return Err(OutOfMemoryError::BlockSizeExceeded);
        }
        let n = self.blocks.len();
        for j in 0..n
            invariant
                n == self.blocks@.len(),
                self.wf(),
                *self == *old(self),
                size <= self.block_size,
                forall|k: int| 0 <= k < j ==> (#[trigger] self.blocks@[k]).used,
        {
            if !self.blocks[j].used {
                let offset = self.blocks[j].offset;
                self.blocks.set(j, PoolBlock { offset, used: true });
                proof {
                    assert forall|i: int|
                        0 <= i < self.blocks@.len() implies (#[trigger] self.blocks@[i]).offset
                        == i * self.block_size by {
                        assert(old(self).blocks@[i].offset == i * self.block_size);
                    }
                }
                return Ok(Allocation { offset, size });
            }
        }
        Err(OutOfMemoryError::OutOfMemory)
    }

    /// Returns a block to the pool. The allocation must be one this pool
    /// handed out and not yet freed: its block is in use at the
    /// allocation's offset.
    pub fn free(&mut self, allocation: Allocation)
        requires
            old(self).wf(),
            exists|j: int|
                0 <= j < old(self).blocks@.len() && (#[trigger] old(self).blocks@[j]).offset
                    == allocation.offset && old(self).blocks@[j].used,
        ensures
            final (self).wf(),
            final (self).block_size == old(self).block_size,
            exists|j: int|
                {
                    &&& 0 <= j < old(self).blocks@.len()
                    &&& (#[trigger] old(self).blocks@[j]).offset == allocation.offset
                    &&& old(self).blocks@[j].used
                    &&& final (self).blocks@ == old(self).blocks@.update(
                        j,
                        PoolBlock { offset: allocation.offset, used: false },
                    )
                },
    {
        let n = self.blocks.len();
        for j in 0..n
            invariant
                n == self.blocks@.len(),
                self.wf(),
                *self == *old(self),
                exists|k: int|
                    j <= k < old(self).blocks@.len() && (#[trigger] old(
                        self,
                    ).blocks@[k]).offset == allocation.offset && old(self).blocks@[k].used,
        {
            if self.blocks[j].used && self.blocks[j].offset == allocation.offset {
                self.blocks.set(j, PoolBlock { offset: allocation.offset, used: false });
                proof {
                    assert forall|i: int|
                        0 <= i < self.blocks@.len() implies (#[trigger] self.blocks@[i]).offset
                        == i * self.block_size by {
                        assert(old(self).blocks@[i].offset == i * self.block_size);
                    }
                }
                return ;
            }
            proof {
                let k = choose|k: int|
                    j <= k < old(self).blocks@.len() && (#[trigger] old(
                        self,
                    ).blocks@[k]).offset == allocation.offset && old(self).blocks@[k].used;
                if k == j {
                    assert(false);
                }
            }
        }
        proof {
            assert(false);
        }
    }
}

/// `n` is a power of two.
pub open spec fn is_pow2(n: u64) -> bool
    decreases n,
{
    if n == 0 {
        false
    } else if n == 1 {
        true
    } else {
        n % 2 == 0 && is_pow2(n / 2)
    }
}

/// Decides whether `n` is a power of two, as a buddy arena's capacity must
/// be.
pub fn is_power_of_two(n: u64) -> (r: bool)
    ensures
        r == is_pow2(n),
{
    if n == 0 {
        return false;
    }
    let mut t: u64 = n;
    while t > 1
        invariant
            t >= 1,
            is_pow2(n) == is_pow2(t),
        decreases t,
    {
        if t % 2 == 1 {
            return false;
        }
        t = t / 2;
    }
    true
}

/// The value `round_up_from` reaches by doubling `t` until it is at least
/// `size`.
pub open spec fn round_up_from(t: int, size: int) -> int
    decreases 2 * size - t,
{
    if t >= size || t <= 0 {
        t
    } else {
        round_up_from(2 * t, size)
    }
}

/// The smallest power of two that is at least `size`.
pub open spec fn spec_round_up_pow2(size: u64) -> int {
    round_up_from(1, size as int)
}

/// Doubling a power of two below another power of two stays within it.
proof fn lemma_pow2_double_le(t: u64, c: u64)
    requires
        is_pow2(t),
        is_pow2(c),
        t < c,
    ensures
        2 * t <= c,
    decreases t,
{
    if t == 1 {
        assert(c % 2 == 0);
    } else {
        assert(t % 2 == 0 && c % 2 == 0);
        lemma_pow2_double_le(t / 2, c / 2);
    }
}

/// A power of two is at least one.
proof fn lemma_pow2_pos(n: u64)
    requires
        is_pow2(n),
    ensures
        n >= 1,
{
}

/// Adding `h` to a multiple of `h` gives a multiple of `h`.
proof fn lemma_aligned_add(off: int, h: int)
    requires
        h > 0,
        off % h == 0,
    ensures
        (off + h) % h == 0,
{
    vstd::arithmetic::div_mod::lemma_fundamental_div_mod(off, h);
    let q = off / h;
    assert(off + h == (q + 1) * h) by (nonlinear_arith)
        requires
            off == h * q + 0,
    ;
    vstd::arithmetic::div_mod::lemma_mod_multiples_basic(q + 1, h);
}

/// A multiple of `s == 2 * h` is also a multiple of `h`.
proof fn lemma_aligned_half(off: int, s: int, h: int)
    requires
        s == 2 * h,
        h > 0,
        off % s == 0,
    ensures
        off % h == 0,
{
    vstd::arithmetic::div_mod::lemma_fundamental_div_mod(off, s);
    let q = off / s;
    assert(off == (2 * q) * h) by (nonlinear_arith)
        requires
            s == 2 * h,
            off == s * q + 0,
    ;
    vstd::arithmetic::div_mod::lemma_mod_multiples_basic(2 * q, h);
}

/// An even multiple of `s` is a multiple of `2 * s`.
proof fn lemma_aligned_double(off: int, s: int)
    requires
        s > 0,
        off % s == 0,
        (off / s) % 2 == 0,
    ensures
        off % (2 * s) == 0,
{
    vstd::arithmetic::div_mod::lemma_fundamental_div_mod(off, s);
    let q = off / s;
    vstd::arithmetic::div_mod::lemma_fundamental_div_mod(q, 2);
    let p = q / 2;
    assert(off == p * (2 * s)) by (nonlinear_arith)
        requires
            off == s * q + 0,
            q == 2 * p + 0,
    ;
    vstd::arithmetic::div_mod::lemma_mod_multiples_basic(p, 2 * s);
}

/// Stepping one block back from an odd multiple of `s` lands on a multiple
/// of `2 * s`.
proof fn lemma_aligned_prev(off: int, s: int)
    requires
        s > 0,
        off >= 0,
        off % s == 0,
        (off / s) % 2 == 1,
    ensures
        (off - s) % (2 * s) == 0,
        off >= s,
{
    vstd::arithmetic::div_mod::lemma_fundamental_div_mod(off, s);
    let q = off / s;
    vstd::arithmetic::div_mod::lemma_fundamental_div_mod(q, 2);
    let p = q / 2;
    assert(q >= 0) by (nonlinear_arith)
        requires
            off == s * q + 0,
            off >= 0,
            s > 0,
    ;
    assert(off - s == p * (2 * s) && off >= s) by (nonlinear_arith)
        requires
            off == s * q + 0,
            q == 2 * p + 1,
            q >= 0,
            s > 0,
    ;
    vstd::arithmetic::div_mod::lemma_mod_multiples_basic(p, 2 * s);
}

/// A free block of a buddy arena: a power-of-two size, aligned to its own
/// size, within the arena.
pub open spec fn buddy_block_ok(b: Allocation, capacity: u64) -> bool {
    &&& is_pow2(b.size)
    &&& b.offset as int % b.size as int == 0
    &&& b.offset + b.size <= capacity
}

/// Two regions do not overlap.
pub open spec fn regions_disjoint(a: Allocation, b: Allocation) -> bool {
    a.offset + a.size <= b.offset || b.offset + b.size <= a.offset
}

/// Every free block of a buddy arena is well formed and no two overlap.
pub open spec fn buddy_wf(blocks: Seq<Allocation>, capacity: u64) -> bool {
    &&& forall|i: int| 0 <= i < blocks.len() ==> buddy_block_ok(#[trigger] blocks[i], capacity)
    &&& forall|i: int, j: int|
        0 <= i < blocks.len() && 0 <= j < blocks.len() && i != j ==> regions_disjoint(
            #[trigger] blocks[i],
            #[trigger] blocks[j],
        )
}

/// The other half of the power-of-two block one size up: the block this
/// one merges with when both are free.
pub open spec fn spec_buddy_offset(b: Allocation) -> int {
    if (b.offset as int / b.size as int) % 2 == 0 {
        b.offset + b.size
    } else {
        b.offset - b.size
    }
}

/// A power-of-two buddy arena: block sizes are powers of two aligned to
/// their own size; allocation splits blocks in half until the requested
/// size class is reached, and freeing merges a block with its buddy while
/// the buddy is free. Suited to image allocations of varied sizes.
pub struct BuddyAllocator {
    pub capacity: u64,
    pub free_blocks: Vec<Allocation>,
}

impl BuddyAllocator {
    /// The capacity is a power of two and the free blocks are well formed.
    pub open spec fn wf(self) -> bool {
        &&& is_pow2(self.capacity)
        &&& buddy_wf(self.free_blocks@, self.capacity)
    }

    /// A fresh arena: one free block spanning the whole capacity.
    pub fn new(capacity: u64) -> (r: Self)
        requires
            is_pow2(capacity),
        ensures
            r.wf(),
            r.capacity == capacity,
            forall|o: int| covers(r.free_blocks@, o) <==> 0 <= o < capacity,
    {
        let mut free_blocks: Vec<Allocation> = Vec::new();
        free_blocks.push(Allocation { offset: 0, size: capacity });
        let r = BuddyAllocator { capacity, free_blocks };
        proof {
            assert(r.free_blocks@[0] == (Allocation { offset: 0, size: capacity }));
            assert(0int % capacity as int == 0) by (nonlinear_arith)
                requires
                    capacity as int > 0,
            ;
            assert forall|o: int| covers(r.free_blocks@, o) <==> 0 <= o < capacity by {
                if 0 <= o < capacity {
                    assert(r.free_blocks@[0].offset <= o < r.free_blocks@[0].offset
                        + r.free_blocks@[0].size);
                }
            }
        }
        r
    }

    /// The power-of-two size class of a request: the smallest power of two
    /// at least `size`. It never exceeds the arena's capacity.
    fn round_block_size(size: u64, capacity: u64) -> (r: u64)
        requires
            is_pow2(capacity),
            1 <= size <= capacity,
        ensures
            r == spec_round_up_pow2(size),
            is_pow2(r),
            size <= r <= capacity,
    {
        let mut t: u64 = 1;
        proof {
            if 1 < capacity {
                lemma_pow2_double_le(1, capacity);
            }
        }
        while t < size
            invariant
                is_pow2(t),
                t <= capacity,
                size <= capacity,
                is_pow2(capacity),
                round_up_from(t as int, size as int) == spec_round_up_pow2(size),
            decreases 2 * size - t,
        {
            proof {
                lemma_pow2_double_le(t, capacity);
            }
            t = t * 2;
        }
        t
    }

    /// Splits the smallest free block that reaches the requested size
    /// class (the earliest of equals) down to that class and allocates the
    /// result. Fails exactly when no free block reaches the size class,
    /// leaving the arena untouched. On success the allocated class-sized
    /// range was free before and is allocated afterwards; nothing else
    /// changes.
    pub fn allocate(&mut self, size: u64) -> (r: Result<Allocation, OutOfMemoryError>)
        requires
            old(self).wf(),
            1 <= size <= old(self).capacity,
        ensures
            final (self).wf(),
            final (self).capacity == old(self).capacity,
            r is Err <==> forall|i: int|
                0 <= i < old(self).free_blocks@.len() ==> (#[trigger] old(
                    self,
                ).free_blocks@[i]).size < spec_round_up_pow2(size),
            r is Err ==> *final (self) == *old(self) && r == Err::<Allocation, OutOfMemoryError>(
                OutOfMemoryError::OutOfMemory,
            ),
            r matches Ok(a) ==> {
                &&& a.size == size
                &&& a.offset as int % spec_round_up_pow2(size) == 0
                &&& a.offset + spec_round_up_pow2(size) <= old(self).capacity
                &&& forall|o: int|
                    a.offset <= o < a.offset + spec_round_up_pow2(size) ==> covers(
                        old(self).free_blocks@,
                        o,
                    )
                &&& forall|o: int|
                    #[trigger] covers(final (self).free_blocks@, o) <==> covers(
                        old(self).free_blocks@,
                        o,
                    ) && !(a.offset <= o < a.offset + spec_round_up_pow2(size))
            },
    {
        let target = Self::round_block_size(size, self.capacity);
        let n = self.free_blocks.len();
        let mut found: usize = n;
        for i in 0..n
            invariant
                n == self.free_blocks@.len(),
                target == spec_round_up_pow2(size),
                *self == *old(self),
                found <= n,
                found == n ==> forall|k: int|
                    0 <= k < i ==> (#[trigger] self.free_blocks@[k]).size < target,
                found < n ==> self.free_blocks@[found as int].size >= target,
        {
            if self.free_blocks[i].size >= target && (found == n || self.free_blocks[i].size
                < self.free_blocks[found].size) {
                found = i;
            }
        }
        if found == n {
            return Err(OutOfMemoryError::OutOfMemory);
        }
        let mut cur = self.free_blocks.remove(found);
        proof {
            lemma_remove_covers(old(self).free_blocks@, self.free_blocks@, found as int);
        }
        while cur.size > target
            invariant
                self.capacity == old(self).capacity,
                is_pow2(self.capacity),
                buddy_wf(self.free_blocks@, self.capacity),
                buddy_block_ok(cur, self.capacity),
                is_pow2(target),
                target <= cur.size,
                forall|k: int|
                    0 <= k < self.free_blocks@.len() ==> regions_disjoint(
                        cur,
                        #[trigger] self.free_blocks@[k],
                    ),
                forall|o: int|
                    #[trigger] covers(self.free_blocks@, o) || (cur.offset <= o < cur.offset
                        + cur.size) <==> covers(old(self).free_blocks@, o),
                forall|o: int|
                    (cur.offset <= o < cur.offset + cur.size) ==> !covers(self.free_blocks@, o),
            decreases cur.size,
        {
            let ghost pre = self.free_blocks@;
            let ghost old_cur = cur;
            proof {
                assert(cur.size > 1);
                assert(cur.size % 2 == 0 && is_pow2(cur.size / 2));
                lemma_pow2_pos(cur.size / 2);
                lemma_pow2_double_le(target, cur.size);
                lemma_aligned_half(cur.offset as int, cur.size as int, cur.size as int / 2);
                lemma_aligned_add(cur.offset as int, cur.size as int / 2);
            }
            let half = cur.size / 2;
            let upper = Allocation { offset: cur.offset + half, size: half };
            self.free_blocks.push(upper);
            cur = Allocation { offset: cur.offset, size: half };
            proof {
                // the pushed upper half is a well-formed block, disjoint
                // from everything else: it lies inside the old block
                assert forall|i: int, j: int|
                    0 <= i < self.free_blocks@.len() && 0 <= j < self.free_blocks@.len() && i != j
                        implies regions_disjoint(
                        #[trigger] self.free_blocks@[i],
                        #[trigger] self.free_blocks@[j],
                    ) by {
                    if i < pre.len() && j < pre.len() {
                        assert(regions_disjoint(pre[i], pre[j]));
                    } else if i < pre.len() {
                        assert(regions_disjoint(old_cur, pre[i]));
                    } else if j < pre.len() {
                        assert(regions_disjoint(old_cur, pre[j]));
                    }
                }
                assert forall|i: int|
                    0 <= i < self.free_blocks@.len() implies buddy_block_ok(
                    #[trigger] self.free_blocks@[i],
                    self.capacity,
                ) by {
                    if i < pre.len() {
                        assert(buddy_block_ok(pre[i], self.capacity));
                    }
                }
                assert forall|o: int|
                    #[trigger] covers(self.free_blocks@, o) || (cur.offset <= o < cur.offset
                        + cur.size) <==> covers(old(self).free_blocks@, o) by {
                    lemma_push_covers(pre, upper, o);
                }
                assert forall|o: int|
                    (cur.offset <= o < cur.offset + cur.size) implies !covers(
                    self.free_blocks@,
                    o,
                ) by {
                    lemma_push_covers(pre, upper, o);
                }
            }
        }
        let a = Allocation { offset: cur.offset, size };
        proof {
            assert(cur.size == target);
            assert forall|o: int|
                #[trigger] covers(self.free_blocks@, o) <==> covers(old(self).free_blocks@, o)
                    && !(a.offset <= o < a.offset + spec_round_up_pow2(size)) by {
                assert(covers(self.free_blocks@, o) || (cur.offset <= o < cur.offset + cur.size)
                    <==> covers(old(self).free_blocks@, o));
                if cur.offset <= o < cur.offset + cur.size {
                    assert(!covers(self.free_blocks@, o));
                }
            }
            assert forall|o: int|
                a.offset <= o < a.offset + spec_round_up_pow2(size) implies covers(
                old(self).free_blocks@,
                o,
            ) by {
                assert(covers(self.free_blocks@, o) || (cur.offset <= o < cur.offset + cur.size)
                    <==> covers(old(self).free_blocks@, o));
            }
        }
        Ok(a)
    }

    /// The index of a free block at exactly this offset and size, or the
    /// list's length when there is none.
    fn find_block(blocks: &Vec<Allocation>, offset: u64, size: u64) -> (r: usize)
        ensures
            r <= blocks@.len(),
            r == blocks@.len() ==> forall|k: int|
                0 <= k < blocks@.len() ==> !((#[trigger] blocks@[k]).offset == offset
                    && blocks@[k].size == size),
            r < blocks@.len() ==> blocks@[r as int].offset == offset && blocks@[r as int].size
                == size,
    {
        let n = blocks.len();
        for i in 0..n
            invariant
                n == blocks@.len(),
                forall|k: int|
                    0 <= k < i ==> !((#[trigger] blocks@[k]).offset == offset && blocks@[k].size
                        == size),
        {
            if blocks[i].offset == offset && blocks[i].size == size {
                return i;
            }
        }
        n
    }

    /// Returns a block to the arena: the freed range is the size class of
    /// the original request, and while the block's buddy is also free the
    /// two merge into the block one size class up. Afterwards a byte is
    /// free exactly when it was free before or lies in the freed
    /// class-sized range.
    #[verifier::rlimit(60)]
    pub fn free(&mut self, allocation: Allocation)
        requires
            old(self).wf(),
            1 <= allocation.size <= old(self).capacity,
            allocation.offset as int % spec_round_up_pow2(allocation.size) == 0,
            allocation.offset + spec_round_up_pow2(allocation.size) <= old(self).capacity,
            forall|i: int|
                0 <= i < old(self).free_blocks@.len() ==> (allocation.offset
                    >= (#[trigger] old(self).free_blocks@[i]).offset + old(
                    self,
                ).free_blocks@[i].size || allocation.offset + spec_round_up_pow2(allocation.size)
                    <= old(self).free_blocks@[i].offset),
        ensures
            final (self).wf(),
            final (self).capacity == old(self).capacity,
            forall|o: int|
                #[trigger] covers(final (self).free_blocks@, o) <==> covers(
                    old(self).free_blocks@,
                    o,
                ) || (allocation.offset <= o < allocation.offset + spec_round_up_pow2(
                    allocation.size,
                )),
    {
        let target = Self::round_block_size(allocation.size, self.capacity);
        let mut cur = Allocation { offset: allocation.offset, size: target };
        loop
            invariant
                self.capacity == old(self).capacity,
                is_pow2(self.capacity),
                buddy_wf(self.free_blocks@, self.capacity),
                buddy_block_ok(cur, self.capacity),
                forall|k: int|
                    0 <= k < self.free_blocks@.len() ==> regions_disjoint(
                        cur,
                        #[trigger] self.free_blocks@[k],
                    ),
                forall|o: int|
                    #[trigger] covers(self.free_blocks@, o) || (cur.offset <= o < cur.offset
                        + cur.size) <==> covers(old(self).free_blocks@, o) || (allocation.offset
                        <= o < allocation.offset + spec_round_up_pow2(allocation.size)),
            ensures
                self.capacity == old(self).capacity,
                is_pow2(self.capacity),
                buddy_wf(self.free_blocks@, self.capacity),
                buddy_block_ok(cur, self.capacity),
                forall|k: int|
                    0 <= k < self.free_blocks@.len() ==> regions_disjoint(
                        cur,
                        #[trigger] self.free_blocks@[k],
                    ),
                forall|o: int|
                    #[trigger] covers(self.free_blocks@, o) || (cur.offset <= o < cur.offset
                        + cur.size) <==> covers(old(self).free_blocks@, o) || (allocation.offset
                        <= o < allocation.offset + spec_round_up_pow2(allocation.size)),
            decreases self.capacity - cur.size,
        {
            if cur.size == self.capacity {
                break ;
            }
            proof {
                lemma_pow2_pos(cur.size);
            }
            let q = cur.offset / cur.size;
            let even = q % 2 == 0;
            let buddy_offset: u64 = if even {
                proof {
                    assert(cur.offset + cur.size <= self.capacity);
                }
                cur.offset + cur.size
            } else {
                proof {
                    lemma_aligned_prev(cur.offset as int, cur.size as int);
                }
                cur.offset - cur.size
            };
            let buddy_index = Self::find_block(&self.free_blocks, buddy_offset, cur.size);
            if buddy_index == self.free_blocks.len() {
                break ;
            }
            let ghost pre = self.free_blocks@;
            let ghost old_cur = cur;
            let buddy = self.free_blocks.remove(buddy_index);
            proof {
                lemma_remove_covers(pre, self.free_blocks@, buddy_index as int);
                if even {
                    lemma_aligned_double(cur.offset as int, cur.size as int);
                } else {
                    lemma_aligned_prev(cur.offset as int, cur.size as int);
                }
                // the merged double block stays a power of two
                assert(cur.size * 2 <= self.capacity) by {
                    assert(buddy.offset + buddy.size <= self.capacity);
                    assert(cur.offset + cur.size <= self.capacity);
                }
                assert(is_pow2((cur.size * 2) as u64)) by {
                    assert((cur.size * 2) as u64 / 2 == cur.size);
                }
            }
            let merged_offset = if even {
                cur.offset
            } else {
                buddy_offset
            };
            cur = Allocation { offset: merged_offset, size: cur.size * 2 };
            proof {
                // the merged block is exactly the union of the two buddies
                assert(cur.offset + cur.size == if even {
                    buddy.offset + buddy.size
                } else {
                    old_cur.offset + old_cur.size
                });
                assert forall|k: int|
                    0 <= k < self.free_blocks@.len() implies regions_disjoint(
                    cur,
                    #[trigger] self.free_blocks@[k],
                ) by {
                    let orig = if k < buddy_index as int { k } else { k + 1 };
                    assert(self.free_blocks@[k] == pre[orig]);
                    assert(regions_disjoint(old_cur, pre[orig]));
                    assert(regions_disjoint(pre[buddy_index as int], pre[orig]));
                }
                assert forall|o: int|
                    #[trigger] covers(self.free_blocks@, o) || (cur.offset <= o < cur.offset
                        + cur.size) <==> covers(old(self).free_blocks@, o) || (allocation.offset
                        <= o < allocation.offset + spec_round_up_pow2(allocation.size)) by {
                    assert(covers(pre, o) || (old_cur.offset <= o < old_cur.offset
                        + old_cur.size) <==> covers(old(self).free_blocks@, o) || (
                    allocation.offset <= o < allocation.offset + spec_round_up_pow2(
                        allocation.size,
                    )));
                }
            }
        }
        let ghost pre = self.free_blocks@;
        self.free_blocks.push(cur);
        proof {
            assert forall|i: int, j: int|
                0 <= i < self.free_blocks@.len() && 0 <= j < self.free_blocks@.len() && i != j
                    implies regions_disjoint(
                    #[trigger] self.free_blocks@[i],
                    #[trigger] self.free_blocks@[j],
                ) by {
                if i < pre.len() && j < pre.len() {
                    assert(regions_disjoint(pre[i], pre[j]));
                } else if i < pre.len() {
                    assert(regions_disjoint(cur, pre[i]));
                } else if j < pre.len() {
                    assert(regions_disjoint(cur, pre[j]));
                }
            }
            assert forall|o: int|
                #[trigger] covers(self.free_blocks@, o) <==> covers(old(self).free_blocks@, o)
                    || (allocation.offset <= o < allocation.offset + spec_round_up_pow2(
                    allocation.size,
                )) by {
                lemma_push_covers(pre, cur, o);
                assert(covers(pre, o) || (cur.offset <= o < cur.offset + cur.size) <==> covers(
                    old(self).free_blocks@,
                    o,
                ) || (allocation.offset <= o < allocation.offset + spec_round_up_pow2(
                    allocation.size,
                )));
            }
        }
    }
}

/// Removing one region removes exactly its bytes from coverage when the
/// regions are pairwise disjoint.
proof fn lemma_remove_covers(fl: Seq<Allocation>, new: Seq<Allocation>, idx: int)
    requires
        0 <= idx < fl.len(),
        new == fl.remove(idx),
        forall|i: int, j: int|
            0 <= i < fl.len() && 0 <= j < fl.len() && i != j ==> regions_disjoint(
                #[trigger] fl[i],
                #[trigger] fl[j],
            ),
    ensures
        forall|o: int|
            #[trigger] covers(new, o) || (fl[idx].offset <= o < fl[idx].offset + fl[idx].size)
                <==> covers(fl, o),
        forall|o: int|
            fl[idx].offset <= o < fl[idx].offset + fl[idx].size ==> !covers(new, o),
{
    assert(new.len() == fl.len() - 1);
    assert(forall|k: int| 0 <= k < idx ==> #[trigger] new[k] == fl[k]);
    assert(forall|k: int| idx <= k < new.len() ==> #[trigger] new[k] == fl[k + 1]);
    assert forall|o: int|
        #[trigger] covers(new, o) || (fl[idx].offset <= o < fl[idx].offset + fl[idx].size)
            <==> covers(fl, o) by {
        if covers(new, o) {
            let i = choose|i: int|
                0 <= i < new.len() && (#[trigger] new[i]).offset <= o < new[i].offset
                    + new[i].size;
            if i < idx {
                assert(fl[i].offset <= o < fl[i].offset + fl[i].size);
            } else {
                assert(fl[i + 1].offset <= o < fl[i + 1].offset + fl[i + 1].size);
            }
        }
        if fl[idx].offset <= o < fl[idx].offset + fl[idx].size {
            assert(fl[idx].offset <= o < fl[idx].offset + fl[idx].size && 0 <= idx < fl.len());
            assert(covers(fl, o));
        }
        if covers(fl, o) {
            let i = choose|i: int|
                0 <= i < fl.len() && (#[trigger] fl[i]).offset <= o < fl[i].offset + fl[i].size;
            if i < idx {
                assert(new[i].offset <= o < new[i].offset + new[i].size);
            } else if i > idx {
                assert(new[i - 1].offset <= o < new[i - 1].offset + new[i - 1].size);
            }
        }
    }
    assert forall|o: int|
        fl[idx].offset <= o < fl[idx].offset + fl[idx].size implies !covers(new, o) by {
        if covers(new, o) {
            let i = choose|i: int|
                0 <= i < new.len() && (#[trigger] new[i]).offset <= o < new[i].offset
                    + new[i].size;
            if i < idx {
                assert(regions_disjoint(fl[i], fl[idx]));
            } else {
                assert(regions_disjoint(fl[i + 1], fl[idx]));
            }
        }
    }
}

/// Appending one region adds exactly its bytes to coverage.
proof fn lemma_push_covers(fl: Seq<Allocation>, b: Allocation, o: int)
    ensures
        covers(fl.push(b), o) <==> covers(fl, o) || (b.offset <= o < b.offset + b.size),
{
    let new = fl.push(b);
    if covers(new, o) {
        let i = choose|i: int|
            0 <= i < new.len() && (#[trigger] new[i]).offset <= o < new[i].offset + new[i].size;
        if i < fl.len() {
            assert(fl[i].offset <= o < fl[i].offset + fl[i].size);
        }
    }
    if covers(fl, o) {
        let i = choose|i: int|
            0 <= i < fl.len() && (#[trigger] fl[i]).offset <= o < fl[i].offset + fl[i].size;
        assert(new[i].offset <= o < new[i].offset + new[i].size);
    }
    if b.offset <= o < b.offset + b.size {
        assert(new[fl.len() as int].offset <= o < new[fl.len() as int].offset + new[fl.len() as int].size);
    }
}

} // verus!
