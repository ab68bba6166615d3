use zenalloc::{Allocator, Block, Layout, System};

#[test]
fn test_basic_allocation() {
    let layout = Layout::from_size_align(1024, 8).unwrap();
    let mut system = System::new();
    let block = system.allocate(layout).unwrap();
    assert!(block != Block::dangling());
    assert_eq!(system.bytes(block).len(), 1024);
    system.deallocate(block, layout);
}

#[test]
fn test_allocation_zeroed() {
    let layout = Layout::from_size_align(1024, 8).unwrap();
    let mut system = System::new();
    let block = system.allocate_zeroed(layout).unwrap();
    assert!(block != Block::dangling());
    assert!(system.bytes(block).iter().all(|&byte| byte == 0));
    system.deallocate(block, layout);
}

#[test]
fn test_reallocation() {
    let layout = Layout::from_size_align(1024, 8).unwrap();
    let mut system = System::new();
    let block = system.allocate(layout).unwrap();
    assert!(block != Block::dangling());

    let new_layout = Layout::from_size_align(2048, 8).unwrap();
    let new_block = system.grow(block, layout, new_layout).unwrap();
    assert!(new_block != Block::dangling());
    assert_eq!(system.bytes(new_block).len(), 2048);

    system.deallocate(new_block, new_layout);
}

#[test]
fn test_shrink_allocation() {
    let layout = Layout::from_size_align(2048, 8).unwrap();
    let mut system = System::new();
    let block = system.allocate(layout).unwrap();
    assert!(block != Block::dangling());

    let new_layout = Layout::from_size_align(1024, 8).unwrap();
    let new_block = system.shrink(block, layout, new_layout).unwrap();
    assert!(new_block != Block::dangling());
    assert_eq!(system.bytes(new_block).len(), 1024);

    system.deallocate(new_block, new_layout);
}

#[test]
fn test_grow_allocation() {
    let layout = Layout::from_size_align(1024, 8).unwrap();
    let mut system = System::new();
    let block = system.allocate(layout).unwrap();
    assert!(block != Block::dangling());

    let new_layout = Layout::from_size_align(2048, 8).unwrap();
    let new_block = system.grow(block, layout, new_layout).unwrap();
    assert!(new_block != Block::dangling());

    system.deallocate(new_block, new_layout);
}

#[test]
fn test_deallocation_of_zero_sized_layout() {
    let layout = Layout::from_size_align(0, 1).unwrap();
    let mut system = System::new();
    let block = system.allocate(layout).unwrap();
    assert_eq!(block.size, 0);
    assert!(block == Block::dangling());
    system.deallocate(block, layout);
}

#[test]
fn grow_keeps_bytes_and_shrink_stays_in_place() {
    let layout = Layout::from_size_align(1024, 8).unwrap();
    let mut system = System::new();
    let block = system.allocate(layout).unwrap();
    for i in 0..1024usize {
        system.write(block, i, (i % 251) as u8);
    }

    let bigger = Layout::from_size_align(2048, 8).unwrap();
    let grown = system.grow(block, layout, bigger).unwrap();
    assert_eq!(system.bytes(grown).len(), 2048);
    for i in 0..1024usize {
        assert_eq!(system.bytes(grown)[i], (i % 251) as u8);
    }

    let shrunk = system.shrink(grown, bigger, layout).unwrap();
    assert_eq!(shrunk.handle, grown.handle);
    assert_eq!(shrunk.size, 1024);
    for i in 0..1024usize {
        assert_eq!(system.bytes(shrunk)[i], (i % 251) as u8);
    }
    system.deallocate(shrunk, layout);
}

#[test]
fn grow_zeroed_clears_only_the_new_bytes() {
    let layout = Layout::from_size_align(4, 4).unwrap();
    let mut system = System::new();
    let block = system.allocate(layout).unwrap();
    for i in 0..4usize {
        system.write(block, i, 9);
    }
    let bigger = Layout::from_size_align(8, 4).unwrap();
    let grown = system.grow_zeroed(block, layout, bigger).unwrap();
    assert_eq!(system.bytes(grown), &[9, 9, 9, 9, 0, 0, 0, 0]);
}

#[test]
fn grow_with_new_alignment_moves_and_copies() {
    let layout = Layout::from_size_align(3, 1).unwrap();
    let mut system = System::new();
    let block = system.allocate(layout).unwrap();
    system.write(block, 0, 1);
    system.write(block, 1, 2);
    system.write(block, 2, 3);
    let bigger = Layout::from_size_align(5, 8).unwrap();
    let grown = system.grow(block, layout, bigger).unwrap();
    assert_ne!(grown.handle, block.handle);
    assert_eq!(&system.bytes(grown)[..3], &[1, 2, 3]);
}

#[test]
fn shrink_with_new_alignment_moves_and_copies() {
    let layout = Layout::from_size_align(4, 1).unwrap();
    let mut system = System::new();
    let block = system.allocate(layout).unwrap();
    for i in 0..4usize {
        system.write(block, i, i as u8 + 10);
    }
    let smaller = Layout::from_size_align(2, 2).unwrap();
    let shrunk = system.shrink(block, layout, smaller).unwrap();
    assert_ne!(shrunk.handle, block.handle);
    assert_eq!(system.bytes(shrunk), &[10, 11]);
}

#[test]
fn shrink_to_zero_gives_the_sentinel() {
    let layout = Layout::from_size_align(16, 8).unwrap();
    let mut system = System::new();
    let block = system.allocate(layout).unwrap();
    let empty = Layout::from_size_align(0, 8).unwrap();
    let shrunk = system.shrink(block, layout, empty).unwrap();
    assert!(shrunk == Block::dangling());
    system.deallocate(shrunk, empty);
}

#[test]
fn grow_from_zero_allocates() {
    let empty = Layout::from_size_align(0, 4).unwrap();
    let mut system = System::new();
    let block = system.allocate(empty).unwrap();
    let bigger = Layout::from_size_align(12, 4).unwrap();
    let grown = system.grow(block, empty, bigger).unwrap();
    assert!(grown != Block::dangling());
    assert_eq!(system.bytes(grown).len(), 12);
}

#[test]
fn layout_rejects_bad_alignment_and_size() {
    assert!(Layout::from_size_align(8, 0).is_err());
    assert!(Layout::from_size_align(8, 3).is_err());
    assert!(Layout::from_size_align(8, 12).is_err());
    assert!(Layout::from_size_align(isize::MAX as usize, 1).is_ok());
    assert!(Layout::from_size_align(isize::MAX as usize + 1, 1).is_err());
    assert!(Layout::from_size_align(isize::MAX as usize, 2).is_err());
    let l = Layout::from_size_align(24, 8).unwrap();
    assert_eq!(l.size(), 24);
    assert_eq!(l.align(), 8);
}

#[test]
fn layout_of_arrays() {
    let l = Layout::array::<u32>(10).unwrap();
    assert_eq!(l.size(), 40);
    assert_eq!(l.align(), 4);
    assert!(Layout::array::<u64>(usize::MAX / 4).is_err());
    let one = Layout::new::<u64>();
    assert_eq!(one.size(), 8);
}

#[test]
fn released_handles_are_handed_out_again() {
    let layout = Layout::from_size_align(8, 8).unwrap();
    let mut system = System::new();
    let a = system.allocate(layout).unwrap();
    let b = system.allocate(layout).unwrap();
    assert_ne!(a.handle, b.handle);
    system.deallocate(a, layout);
    let c = system.allocate_zeroed(layout).unwrap();
    assert_eq!(c.handle, a.handle);
    assert_eq!(system.bytes(c), &[0u8; 8]);
    assert_eq!(system.bytes(b).len(), 8);
}
