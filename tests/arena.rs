use arena_allocator::{AllocError, Arena, ArenaError, LayoutError};

fn zero_dump(capacity: usize) -> String {
    let mut s = String::new();
    for i in 0..capacity {
        s.push_str("00 ");
        if (i + 1) % 16 == 0 {
            s.push('\n');
        }
    }
    s
}

#[test]
fn example_scenario() {
    let mut arena = Arena::<512, 8>::new().unwrap();
    let first = arena.allocate::<[u8; 256]>().unwrap();
    let second = arena.allocate::<[u8; 256]>().unwrap();
    assert_eq!(first.start(), 0);
    assert_eq!(first.len(), 256);
    assert_eq!(second.start(), 256);
    assert_eq!(second.len(), 256);
    assert_eq!(arena.remaining(), 0);

    for i in 0..256usize {
        arena.write(&first, i, i as u8);
    }
    let mut expected = String::new();
    for i in 0..512usize {
        let b = if i < 256 { i as u8 } else { 0 };
        expected.push_str(&format!("{:02x} ", b));
        if (i + 1) % 16 == 0 {
            expected.push('\n');
        }
    }
    let text = arena.dump().unwrap();
    assert_eq!(text, expected);
    assert!(text.starts_with("00 01 02 03 04 05 06 07 08 09 0a 0b 0c 0d 0e 0f \n10 11 "));
    assert!(text.contains("f0 f1 f2 f3 f4 f5 f6 f7 f8 f9 fa fb fc fd fe ff \n00 00 "));

    assert_eq!(arena.allocate::<u8>().err(), Some(ArenaError::Alloc(AllocError)));
    assert_eq!(arena.allocate::<[u8; 256]>().err(), Some(ArenaError::Alloc(AllocError)));
    assert_eq!(arena.offset(), 512);

    for i in 0..256usize {
        arena.write(&second, 255 - i, i as u8);
    }
    for i in 0..256usize {
        arena.write(&first, i, 0);
    }
    let text = arena.dump().unwrap();
    let mut expected = String::new();
    for i in 0..512usize {
        let b = if i < 256 { 0 } else { (511 - i) as u8 };
        expected.push_str(&format!("{:02x} ", b));
        if (i + 1) % 16 == 0 {
            expected.push('\n');
        }
    }
    assert_eq!(text, expected);

    arena.fill(&second, 0);
    assert_eq!(arena.dump().unwrap(), zero_dump(512));
}

#[test]
fn fresh_arena_dumps_zeros() {
    let arena = Arena::<64, 16>::new().unwrap();
    assert_eq!(arena.dump().unwrap(), zero_dump(64));
    assert_eq!(arena.offset(), 0);
    assert_eq!(arena.capacity(), 64);
    assert_eq!(arena.alignment(), 16);
    assert_eq!(arena.remaining(), 64);
}

#[test]
fn dump_renders_every_byte_with_line_breaks() {
    let mut arena = Arena::<20, 4>::new().unwrap();
    let expected = format!("{}\n{}", "00 ".repeat(16), "00 ".repeat(4));
    assert_eq!(arena.dump().unwrap(), expected);
    let r = arena.allocate::<u8>().unwrap();
    arena.write(&r, 0, 0xab);
    let text = arena.dump().unwrap();
    assert_eq!(text.len(), 3 * 20 + 1);
    assert!(text.starts_with("ab 00 "));
    assert_eq!(text.matches('\n').count(), 1);

    let full = Arena::<32, 1>::new().unwrap();
    let text = full.dump().unwrap();
    assert_eq!(text.len(), 3 * 32 + 2);
    assert!(text.ends_with("00 \n"));
    assert_eq!(text.matches('\n').count(), 2);
}

#[test]
fn dump_twice_is_identical() {
    let mut arena = Arena::<48, 8>::new().unwrap();
    let r = arena.allocate::<[u8; 5]>().unwrap();
    for i in 0..5usize {
        arena.write(&r, i, 0x11 * (i as u8 + 1));
    }
    let a = arena.dump().unwrap();
    let b = arena.dump().unwrap();
    assert_eq!(a, b);
    assert!(a.starts_with("11 22 33 44 55 00 "));
}

#[test]
fn capacity_bound_and_failed_allocation_keeps_offset() {
    let mut arena = Arena::<10, 1>::new().unwrap();
    assert!(arena.allocate::<u32>().is_ok());
    assert!(arena.allocate::<u32>().is_ok());
    assert_eq!(arena.offset(), 8);
    assert_eq!(arena.allocate::<u32>().err(), Some(ArenaError::Alloc(AllocError)));
    assert_eq!(arena.offset(), 8);
    let last = arena.allocate::<u16>().unwrap();
    assert_eq!(last.start(), 8);
    assert_eq!(arena.offset(), 10);
    assert_eq!(arena.allocate::<u8>().err(), Some(ArenaError::Alloc(AllocError)));
    assert_eq!(arena.offset(), 10);
}

#[test]
fn regions_are_contiguous_and_disjoint() {
    let mut arena = Arena::<64, 8>::new().unwrap();
    let a = arena.allocate::<u64>().unwrap();
    let b = arena.allocate::<[u8; 3]>().unwrap();
    let c = arena.allocate::<u32>().unwrap();
    assert_eq!((a.start(), a.len()), (0, 8));
    assert_eq!((b.start(), b.len()), (8, 3));
    assert_eq!((c.start(), c.len()), (11, 4));
    arena.fill(&a, 0xaa);
    arena.fill(&b, 0xbb);
    arena.fill(&c, 0xcc);
    assert_eq!(arena.region_bytes(&a), vec![0xaa; 8]);
    assert_eq!(arena.region_bytes(&b), vec![0xbb; 3]);
    assert_eq!(arena.region_bytes(&c), vec![0xcc; 4]);
    assert_eq!(arena.offset(), 15);
}

#[test]
fn no_padding_for_type_alignment() {
    let mut arena = Arena::<8, 8>::new().unwrap();
    let a = arena.allocate::<u8>().unwrap();
    let b = arena.allocate::<u16>().unwrap();
    assert_eq!(a.start(), 0);
    assert_eq!(b.start(), 1);
    assert_eq!(arena.offset(), 3);
}

#[test]
fn zero_sized_allocation_fits_a_full_arena() {
    let mut arena = Arena::<4, 4>::new().unwrap();
    assert!(arena.allocate::<u32>().is_ok());
    let empty = arena.allocate::<()>().unwrap();
    assert!(empty.is_empty());
    assert_eq!(empty.start(), 4);
    assert_eq!(arena.offset(), 4);
}

#[test]
fn read_write_touch_one_byte() {
    let mut arena = Arena::<16, 2>::new().unwrap();
    let r = arena.allocate::<[u8; 4]>().unwrap();
    arena.write(&r, 2, 0x7f);
    assert_eq!(arena.read(&r, 2), 0x7f);
    assert_eq!(arena.read(&r, 1), 0);
    assert_eq!(arena.region_bytes(&r), vec![0, 0, 0x7f, 0]);
}

#[test]
fn zero_capacity_is_a_layout_error() {
    assert_eq!(Arena::<0, 8>::new().err(), Some(ArenaError::Layout(LayoutError::ZeroCapacity)));
}

#[test]
fn zero_alignment_is_a_layout_error() {
    assert_eq!(Arena::<16, 0>::new().err(), Some(ArenaError::Layout(LayoutError::ZeroAlignment)));
}

#[test]
fn alignment_must_be_a_power_of_two() {
    assert_eq!(
        Arena::<16, 3>::new().err(),
        Some(ArenaError::Layout(LayoutError::AlignmentNotPowerOfTwo))
    );
    assert_eq!(
        Arena::<16, 12>::new().err(),
        Some(ArenaError::Layout(LayoutError::AlignmentNotPowerOfTwo))
    );
    assert!(Arena::<16, 1>::new().is_ok());
    assert!(Arena::<16, 64>::new().is_ok());
}

#[test]
fn padded_size_overflow_is_a_layout_error() {
    assert_eq!(
        Arena::<{ isize::MAX as usize }, 2>::new().err(),
        Some(ArenaError::Layout(LayoutError::SizeOverflow))
    );
    assert_eq!(
        Arena::<{ usize::MAX }, 1>::new().err(),
        Some(ArenaError::Layout(LayoutError::SizeOverflow))
    );
}

#[test]
fn unsatisfiable_buffer_is_an_alloc_error() {
    assert_eq!(
        Arena::<{ isize::MAX as usize - 1 }, 1>::new().err(),
        Some(ArenaError::Alloc(AllocError))
    );
}

#[test]
fn errors_convert_into_arena_error() {
    assert_eq!(ArenaError::from(AllocError), ArenaError::Alloc(AllocError));
    assert_eq!(
        ArenaError::from(LayoutError::SizeOverflow),
        ArenaError::Layout(LayoutError::SizeOverflow)
    );
}
