use rvkernel::page_alloc::{PageAllocator, WORD_BYTES};
use rvkernel::types::PAGE_SIZE;

const START: usize = 0x8040_0000;
/// Words that one page takes.
const PAGE: usize = PAGE_SIZE as usize;
/// Bytes that one page takes.
const PAGE_BYTES: usize = PAGE * WORD_BYTES;

#[test]
fn first_allocation_starts_at_free_ram() {
    let mut ram = vec![0xFFFF_FFFFu32; 4 * PAGE];
    let mut a = PageAllocator::new(START, START + 4 * PAGE_BYTES);
    assert_eq!(a.next_paddr(), START);
    let p = a.alloc_pages(&mut ram, 1);
    assert_eq!(p, START);
    assert_eq!(a.next_paddr(), START + 4 * 4096);
    assert!(ram[..PAGE].iter().all(|&w| w == 0));
    assert!(ram[PAGE..].iter().all(|&w| w == 0xFFFF_FFFF));
}

#[test]
fn successive_allocations_do_not_overlap() {
    let mut ram = vec![1u32; 4 * PAGE];
    let mut a = PageAllocator::new(START, START + 4 * PAGE_BYTES);
    let p1 = a.alloc_pages(&mut ram, 2);
    let p2 = a.alloc_pages(&mut ram, 1);
    assert_eq!(p1, START);
    assert_eq!(p2, START + 2 * 16384);
    assert!(ram[..3 * PAGE].iter().all(|&w| w == 0));
    assert!(ram[3 * PAGE..].iter().all(|&w| w == 1));
}

#[test]
fn allocation_may_fill_free_ram_exactly() {
    let mut ram = vec![3u32; 2 * PAGE];
    let mut a = PageAllocator::new(START, START + 2 * PAGE_BYTES);
    assert!(a.has_room(2));
    assert!(!a.has_room(3));
    let p = a.alloc_pages(&mut ram, 2);
    assert_eq!(p, START);
    assert_eq!(a.next_paddr(), START + 2 * 16384);
    assert!(ram.iter().all(|&w| w == 0));
    assert!(!a.has_room(1));
    assert!(a.has_room(0));
}

#[test]
fn page_of_only_page_size_bytes_does_not_fit() {
    let a = PageAllocator::new(START, START + 4096);
    assert!(!a.has_room(1));
    let b = PageAllocator::new(START, START + 16384);
    assert!(b.has_room(1));
}

#[test]
fn zero_page_allocation_changes_nothing() {
    let mut ram = vec![3u32; PAGE];
    let mut a = PageAllocator::new(START, START + PAGE_BYTES);
    let p = a.alloc_pages(&mut ram, 0);
    assert_eq!(p, START);
    assert_eq!(a.next_paddr(), START);
    assert!(ram.iter().all(|&w| w == 3));
}

#[test]
fn has_room_on_empty_ram() {
    let a = PageAllocator::new(START, START);
    assert!(a.has_room(0));
    assert!(!a.has_room(1));
    assert!(!a.has_room(u32::MAX));
}
