use axallocator::AllocError;
use axmem_core::EarlyAllocator;

fn fresh() -> EarlyAllocator<4096> {
    let mut a = EarlyAllocator::<4096>::new();
    a.init(0x1000, 0x10000);
    a
}

#[test]
fn new_allocator_is_empty() {
    let a = EarlyAllocator::<4096>::new();
    assert!(a.is_well_formed());
    assert_eq!(a.total_bytes(), 0);
    assert_eq!(a.used_bytes(), 0);
    assert_eq!(a.available_bytes(), 0);
    assert_eq!(a.total_pages(), 0);
    assert_eq!(a.live_allocations(), 0);
}

#[test]
fn init_sets_the_extent() {
    let a = fresh();
    assert!(a.is_well_formed());
    assert_eq!(a.total_bytes(), 0x10000);
    assert_eq!(a.used_bytes(), 0);
    assert_eq!(a.available_bytes(), 0x10000);
    assert_eq!(a.total_pages(), 16);
    assert_eq!(a.used_pages(), 0);
    assert_eq!(a.available_pages(), 16);
}

#[test]
fn init_again_forgets_allocations() {
    let mut a = fresh();
    a.alloc_bytes(100, 8).unwrap();
    a.alloc_pages(1, 4096).unwrap();
    a.init(0x8000, 0x2000);
    assert_eq!(a.live_allocations(), 0);
    assert_eq!(a.used_bytes(), 0);
    assert_eq!(a.available_bytes(), 0x2000);
    assert_eq!(a.alloc_bytes(1, 1).unwrap(), 0x8000);
}

#[test]
fn byte_allocations_grow_upwards() {
    let mut a = fresh();
    assert_eq!(a.alloc_bytes(10, 8).unwrap(), 0x1000);
    assert_eq!(a.alloc_bytes(10, 8).unwrap(), 0x1010);
    assert_eq!(a.alloc_bytes(1, 64).unwrap(), 0x1040);
    assert_eq!(a.used_bytes(), 0x41);
    assert_eq!(a.available_bytes(), 0x10000 - 0x41);
    assert_eq!(a.live_allocations(), 3);
    assert!(a.is_well_formed());
}

#[test]
fn byte_allocation_aligns_an_unaligned_start() {
    let mut a = EarlyAllocator::<4096>::new();
    a.init(0x1003, 0x100);
    assert_eq!(a.alloc_bytes(4, 16).unwrap(), 0x1010);
    assert_eq!(a.used_bytes(), 0x11);
}

#[test]
fn zero_sized_allocation_counts() {
    let mut a = fresh();
    assert_eq!(a.alloc_bytes(0, 1).unwrap(), 0x1000);
    assert_eq!(a.used_bytes(), 0);
    assert_eq!(a.live_allocations(), 1);
    a.dealloc(0x1000, 0, 1);
    assert_eq!(a.live_allocations(), 0);
}

#[test]
fn collision_is_rejected_and_changes_nothing() {
    let mut a = fresh();
    a.alloc_pages(15, 4096).unwrap();
    assert_eq!(a.available_bytes(), 0x1000);
    assert_eq!(a.alloc_bytes(0x7f1, 1).unwrap(), 0x1000);
    let used = a.used_bytes();
    let live = a.live_allocations();
    // one byte too many
    assert!(matches!(a.alloc_bytes(0x810, 1), Err(AllocError::NoMemory)));
    // fits as it is, but not once aligned
    assert!(matches!(a.alloc_bytes(0x801, 16), Err(AllocError::NoMemory)));
    assert_eq!(a.used_bytes(), used);
    assert_eq!(a.live_allocations(), live);
    assert_eq!(a.alloc_bytes(0x80f, 1).unwrap(), 0x17f1);
    assert_eq!(a.available_bytes(), 0);
    assert!(matches!(a.alloc_bytes(1, 1), Err(AllocError::NoMemory)));
    assert_eq!(a.alloc_bytes(0, 1).unwrap(), 0x2000);
}

#[test]
fn allocation_that_would_pass_the_end_of_memory_is_rejected() {
    let mut a = EarlyAllocator::<4096>::new();
    a.init(usize::MAX - 0x10, 0x10);
    assert!(matches!(a.alloc_bytes(1, 0x1000), Err(AllocError::NoMemory)));
    assert!(matches!(a.alloc_bytes(usize::MAX, 1), Err(AllocError::NoMemory)));
    assert_eq!(a.used_bytes(), 0);
    assert_eq!(a.alloc_bytes(0x10, 1).unwrap(), usize::MAX - 0x10);
}

#[test]
fn byte_zone_resets_when_the_last_allocation_goes() {
    let mut a = fresh();
    let first = a.alloc_bytes(100, 8).unwrap();
    let second = a.alloc_bytes(200, 16).unwrap();
    let third = a.alloc_bytes(300, 32).unwrap();
    a.dealloc(second, 200, 16);
    assert_eq!(a.live_allocations(), 2);
    assert!(a.used_bytes() > 0);
    a.dealloc(third, 300, 32);
    assert!(a.used_bytes() > 0);
    a.dealloc(first, 100, 8);
    assert_eq!(a.live_allocations(), 0);
    assert_eq!(a.used_bytes(), 0);
    assert_eq!(a.alloc_bytes(8, 8).unwrap(), 0x1000);
}

#[test]
fn dealloc_without_allocations_does_not_underflow() {
    let mut a = fresh();
    a.dealloc(0x1000, 8, 8);
    a.dealloc(0x1000, 8, 8);
    assert_eq!(a.live_allocations(), 0);
    assert_eq!(a.used_bytes(), 0);
    assert!(a.is_well_formed());
}

#[test]
fn page_allocations_grow_downwards() {
    let mut a = fresh();
    assert_eq!(a.alloc_pages(2, 4096).unwrap(), 0xf000);
    assert_eq!(a.alloc_pages(1, 4096).unwrap(), 0xe000);
    assert_eq!(a.alloc_pages(1, 0x4000).unwrap(), 0xc000);
    assert_eq!(a.available_bytes(), 0xb000);
    assert_eq!(a.available_pages(), 11);
    assert_eq!(a.used_pages(), 0);
    assert!(a.is_well_formed());
}

#[test]
fn page_addresses_strictly_decrease() {
    let mut a = fresh();
    let mut last = usize::MAX;
    let mut got = 0;
    loop {
        match a.alloc_pages(1, 4096) {
            Ok(pos) => {
                assert!(pos < last);
                assert!(pos >= 0x1000 + a.used_bytes());
                last = pos;
                got += 1;
            }
            Err(e) => {
                assert!(matches!(e, AllocError::NoMemory));
                break;
            }
        }
    }
    assert_eq!(got, 16);
    assert_eq!(a.available_bytes(), 0);
}

#[test]
fn page_allocation_stays_above_the_byte_zone() {
    let mut a = fresh();
    a.alloc_bytes(0x100, 1).unwrap();
    assert!(matches!(a.alloc_pages(16, 4096), Err(AllocError::NoMemory)));
    assert_eq!(a.available_bytes(), 0x10000 - 0x100);
    assert_eq!(a.alloc_pages(15, 4096).unwrap(), 0x2000);
    // 0xf00 bytes are left, and no page fits into them
    assert!(matches!(a.alloc_pages(1, 4096), Err(AllocError::NoMemory)));
    assert_eq!(a.available_bytes(), 0xf00);
}

#[test]
fn page_allocation_rejected_when_alignment_reaches_into_bytes() {
    let mut a = EarlyAllocator::<4096>::new();
    a.init(0x1000, 0x3000);
    a.alloc_bytes(0x10, 1).unwrap();
    // the block fits at 0x3000, but aligned down to 0x4000 it would start at 0
    assert!(matches!(a.alloc_pages(1, 0x4000), Err(AllocError::NoMemory)));
    assert_eq!(a.available_bytes(), 0x3000 - 0x10);
    assert_eq!(a.alloc_pages(1, 0x2000).unwrap(), 0x2000);
}

#[test]
fn page_count_that_overflows_is_rejected() {
    let mut a = fresh();
    assert!(matches!(a.alloc_pages(usize::MAX, 4096), Err(AllocError::NoMemory)));
    assert!(matches!(a.alloc_pages(usize::MAX / 4096 + 1, 4096), Err(AllocError::NoMemory)));
    assert_eq!(a.available_bytes(), 0x10000);
}

#[test]
fn zero_pages_do_not_move_an_aligned_boundary() {
    let mut a = fresh();
    assert_eq!(a.alloc_pages(0, 4096).unwrap(), 0x11000);
    assert_eq!(a.alloc_pages(0, 4096).unwrap(), 0x11000);
    assert_eq!(a.available_bytes(), 0x10000);
}

#[test]
fn dealloc_pages_keeps_the_boundary() {
    let mut a = fresh();
    let pos = a.alloc_pages(2, 4096).unwrap();
    let before = a.available_bytes();
    // the block that ends at the boundary
    a.dealloc_pages(pos - 0x1000, 1);
    assert_eq!(a.available_bytes(), before);
    // the block that was allocated last
    a.dealloc_pages(pos, 2);
    assert_eq!(a.available_bytes(), before);
    // blocks anywhere else, and counts that overflow
    a.dealloc_pages(0x1000, 1);
    a.dealloc_pages(usize::MAX, usize::MAX);
    assert_eq!(a.available_bytes(), before);
    assert_eq!(a.alloc_pages(1, 4096).unwrap(), pos - 0x1000);
    assert!(a.is_well_formed());
}

#[test]
fn add_memory_moves_the_page_boundary_within_the_extent() {
    let mut a = fresh();
    a.alloc_pages(4, 4096).unwrap();
    assert_eq!(a.available_bytes(), 0xc000);
    assert!(a.add_memory(0x9000, 0x8000).is_ok());
    assert_eq!(a.available_bytes(), 0x10000);
    assert!(a.add_memory(0x1000, 0x4000).is_ok());
    assert_eq!(a.available_bytes(), 0x4000);
    assert!(a.is_well_formed());
}

#[test]
fn add_memory_beyond_the_extent_is_rejected() {
    let mut a = fresh();
    a.alloc_pages(1, 4096).unwrap();
    assert!(matches!(a.add_memory(0x11000, 1), Err(AllocError::NoMemory)));
    assert!(matches!(a.add_memory(0x1000, 0x10001), Err(AllocError::NoMemory)));
    assert!(matches!(a.add_memory(usize::MAX, 2), Err(AllocError::NoMemory)));
    assert_eq!(a.available_bytes(), 0xf000);
    assert!(a.is_well_formed());
}

#[test]
fn add_memory_below_the_byte_zone_breaks_the_order() {
    let mut a = fresh();
    a.alloc_bytes(0x100, 1).unwrap();
    assert!(a.add_memory(0x1000, 0x80).is_ok());
    assert!(!a.is_well_formed());
    assert!(a.is_sound());
    // bytes are still counted, given back and refused as before
    assert_eq!(a.used_bytes(), 0x100);
    assert_eq!(a.used_pages(), 0);
    assert!(matches!(a.alloc_bytes(1, 1), Err(AllocError::NoMemory)));
    assert!(matches!(a.alloc_bytes(0, 1), Err(AllocError::NoMemory)));
    assert_eq!(a.live_allocations(), 1);
    a.dealloc_pages(0x1000, 1);
    assert!(a.is_sound() && !a.is_well_formed());
    a.dealloc(0x1000, 0x100, 1);
    assert_eq!(a.live_allocations(), 0);
    assert_eq!(a.used_bytes(), 0);
    // the boundary can be put right again
    assert!(a.add_memory(0x1000, 0x8000).is_ok());
    assert!(a.is_well_formed());
    assert_eq!(a.available_bytes(), 0x8000);
    a.init(0x1000, 0x10000);
    assert!(a.is_well_formed());
}

#[test]
fn zones_stay_in_order_through_a_mixed_run() {
    let mut a = fresh();
    let mut step = 0usize;
    while step < 200 {
        match step % 5 {
            0 => {
                let _ = a.alloc_bytes(step * 7 + 1, 8);
            }
            1 => {
                let _ = a.alloc_pages(step % 3, 4096);
            }
            2 => {
                let _ = a.alloc_bytes(3, 64);
            }
            3 => a.dealloc(0, 0, 1),
            _ => a.dealloc_pages(step, 1),
        }
        assert!(a.is_well_formed());
        assert_eq!(a.total_bytes(), 0x10000);
        assert!(a.used_bytes() + a.available_bytes() <= 0x10000);
        step += 1;
    }
}

#[test]
fn page_counters_round_down() {
    let mut a = EarlyAllocator::<4096>::new();
    a.init(0x1000, 0x2800);
    assert_eq!(a.total_pages(), 2);
    assert_eq!(a.available_pages(), 2);
    assert_eq!(a.used_pages(), 0);
    a.alloc_bytes(0x801, 1).unwrap();
    assert_eq!(a.available_pages(), 1);
    assert_eq!(a.used_pages(), 0);
    a.alloc_bytes(0x7ff, 1).unwrap();
    assert_eq!(a.used_pages(), 1);
    assert_eq!(a.available_pages(), 1);
    a.alloc_bytes(0x1000, 1).unwrap();
    assert_eq!(a.used_pages(), 2);
    assert_eq!(a.available_pages(), 0);
}

#[test]
fn page_counters_are_the_byte_counters_in_pages() {
    let mut a = fresh();
    let mut step = 0usize;
    while step < 40 {
        if step % 3 == 0 {
            let _ = a.alloc_pages(1, 4096);
        } else {
            let _ = a.alloc_bytes(step * 131, 8);
        }
        assert_eq!(a.total_pages(), a.total_bytes() / 4096);
        assert_eq!(a.used_pages(), a.used_bytes() / 4096);
        assert_eq!(a.available_pages(), a.available_bytes() / 4096);
        assert!(a.used_pages() + a.available_pages() <= a.total_pages());
        step += 1;
    }
}

#[test]
fn page_size_is_a_parameter() {
    let mut a = EarlyAllocator::<0x200>::new();
    a.init(0, 0x1000);
    assert_eq!(a.total_pages(), 8);
    assert_eq!(a.alloc_pages(3, 0x200).unwrap(), 0xa00);
    assert_eq!(a.available_pages(), 5);
}
