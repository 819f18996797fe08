//! The four allocation strategies and the block-size policy validation.

use rvm::allocator::{
    is_power_of_two, plan_allocator_arena, validate_block_sizes, Allocation, BlockSizePolicy,
    BuddyAllocator, BumpAllocator, FreeListAllocator, PoolAllocator,
};
use rvm::errors::{AllocatorCreationError, OutOfMemoryError};

#[test]
fn block_size_policy_validation() {
    let good = vec![
        BlockSizePolicy { heap_index: 0, block_size: 1024 },
        BlockSizePolicy { heap_index: 1, block_size: 4096 },
    ];
    assert_eq!(validate_block_sizes(&good, 2), Ok(()));
    assert_eq!(
        validate_block_sizes(&good, 1),
        Err(AllocatorCreationError::HeapOutOfRange)
    );
    let empty_block = vec![BlockSizePolicy { heap_index: 0, block_size: 0 }];
    assert_eq!(
        validate_block_sizes(&empty_block, 2),
        Err(AllocatorCreationError::ZeroBlockSize)
    );
}

#[test]
fn arena_planning_takes_the_first_policy_entry() {
    let policy = vec![
        BlockSizePolicy { heap_index: 0, block_size: 1 << 20 },
        BlockSizePolicy { heap_index: 1, block_size: 1 << 16 },
    ];
    assert_eq!(plan_allocator_arena(&policy, 2), Ok(1 << 20));
    assert_eq!(
        plan_allocator_arena(&Vec::new(), 2),
        Err(AllocatorCreationError::EmptyPolicy)
    );
    assert_eq!(
        plan_allocator_arena(&policy, 1),
        Err(AllocatorCreationError::HeapOutOfRange)
    );
}

#[test]
fn power_of_two_check() {
    assert!(!is_power_of_two(0));
    assert!(is_power_of_two(1));
    assert!(is_power_of_two(2));
    assert!(!is_power_of_two(3));
    assert!(is_power_of_two(64));
    assert!(!is_power_of_two(65));
    assert!(is_power_of_two(1 << 63));
    assert!(!is_power_of_two(u64::MAX));
}

#[test]
fn bump_allocates_linearly_and_resets_whole() {
    let mut bump = BumpAllocator::new(100);
    let a = bump.allocate(60).unwrap();
    assert_eq!(a, Allocation { offset: 0, size: 60 });
    assert_eq!(bump.allocate(50), Err(OutOfMemoryError::OutOfMemory));
    let b = bump.allocate(40).unwrap();
    assert_eq!(b, Allocation { offset: 60, size: 40 });
    bump.reset();
    let c = bump.allocate(100).unwrap();
    assert_eq!(c.offset, 0);
}

#[test]
fn pool_hands_out_fixed_blocks() {
    let mut pool = PoolAllocator::new(64, 2);
    assert_eq!(pool.allocate(65), Err(OutOfMemoryError::BlockSizeExceeded));
    let a = pool.allocate(10).unwrap();
    assert_eq!(a.offset, 0);
    let b = pool.allocate(64).unwrap();
    assert_eq!(b.offset, 64);
    assert_eq!(pool.allocate(1), Err(OutOfMemoryError::OutOfMemory));
    pool.free(a);
    let c = pool.allocate(32).unwrap();
    assert_eq!(c.offset, 0);
}

#[test]
fn free_list_first_fit_and_reuse() {
    let mut arena = FreeListAllocator::new(100);
    let a = arena.allocate(30).unwrap();
    assert_eq!(a, Allocation { offset: 0, size: 30 });
    let b = arena.allocate(20).unwrap();
    assert_eq!(b, Allocation { offset: 30, size: 20 });
    arena.free(a);
    // first fit: the freed front region is used again
    let c = arena.allocate(25).unwrap();
    assert_eq!(c.offset, 0);
    assert_eq!(arena.allocate(1000), Err(OutOfMemoryError::OutOfMemory));
    let _ = b;
}

#[test]
fn free_list_coalesces_adjacent_regions() {
    let mut arena = FreeListAllocator::new(100);
    let a = arena.allocate(50).unwrap();
    let b = arena.allocate(50).unwrap();
    assert_eq!(arena.allocate(1), Err(OutOfMemoryError::OutOfMemory));
    arena.free(a);
    arena.free(b);
    // both regions merged back into one; the whole arena is allocatable
    let whole = arena.allocate(100).unwrap();
    assert_eq!(whole, Allocation { offset: 0, size: 100 });
}

#[test]
fn free_list_coalesces_across_a_middle_gap() {
    let mut arena = FreeListAllocator::new(90);
    let a = arena.allocate(30).unwrap();
    let b = arena.allocate(30).unwrap();
    let c = arena.allocate(30).unwrap();
    arena.free(a);
    arena.free(c);
    // freeing the middle region bridges both neighbours
    arena.free(b);
    assert_eq!(arena.allocate(90).unwrap().offset, 0);
}

#[test]
fn empty_arenas_refuse_every_request() {
    let mut empty_list = FreeListAllocator::new(0);
    assert_eq!(empty_list.allocate(1), Err(OutOfMemoryError::OutOfMemory));
    let mut empty_pool = PoolAllocator::new(16, 0);
    assert_eq!(empty_pool.allocate(1), Err(OutOfMemoryError::OutOfMemory));
    let mut empty_bump = BumpAllocator::new(0);
    assert_eq!(empty_bump.allocate(1), Err(OutOfMemoryError::OutOfMemory));
}

#[test]
fn buddy_splits_to_the_size_class() {
    let mut arena = BuddyAllocator::new(64);
    let a = arena.allocate(13).unwrap();
    assert_eq!(a.size, 13);
    // the 16-byte size class is self-aligned
    assert_eq!(a.offset % 16, 0);
    let b = arena.allocate(16).unwrap();
    assert_eq!(b.offset % 16, 0);
    assert_ne!(a.offset, b.offset);
    // half the arena is split away; a whole-arena block is impossible now
    assert_eq!(arena.allocate(64), Err(OutOfMemoryError::OutOfMemory));
    let c = arena.allocate(32).unwrap();
    assert_eq!(c.offset % 32, 0);
}

#[test]
fn buddy_merges_freed_buddies_back_up() {
    let mut arena = BuddyAllocator::new(64);
    let a = arena.allocate(16).unwrap();
    let b = arena.allocate(16).unwrap();
    let c = arena.allocate(32).unwrap();
    assert_eq!(arena.allocate(1), Err(OutOfMemoryError::OutOfMemory));
    arena.free(a);
    arena.free(b);
    // the two 16-byte buddies merged into a free 32-byte block
    let d = arena.allocate(32).unwrap();
    assert_eq!(d.offset % 32, 0);
    arena.free(d);
    arena.free(c);
    // everything merged back: the whole arena is one block again
    let whole = arena.allocate(64).unwrap();
    assert_eq!(whole.offset, 0);
}
