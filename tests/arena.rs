use fixed_typed_arena::chunk::{ChunkLayout, ChunkMemory};
use fixed_typed_arena::{Arena, ItemRef};
use std::cell::Cell;

#[test]
fn crate_example() {
    struct Item(u64);

    let mut arena = Arena::<Item, 64, false, true>::new();
    let item1 = arena.allocate(Item(1));
    let item2 = arena.allocate(Item(2));
    let two = arena.get(item2).0;
    arena.get_mut(item1).0 += two;

    assert_eq!(arena.get(item1).0, 3);
    assert_eq!(arena.get(item2).0, 2);
}

#[test]
fn arena_empty() {
    Arena::<u8, 16, false, true>::new();
}

#[test]
fn arena_basic() {
    let mut arena = Arena::<u8, 16, false, true>::new();
    let item1 = arena.allocate(1_u8);
    let item2 = arena.allocate(2_u8);
    let item3 = arena.allocate(3_u8);
    assert_eq!(*arena.get(item1), 1_u8);
    assert_eq!(*arena.get(item2), 2_u8);
    assert_eq!(*arena.get(item3), 3_u8);
}

#[test]
fn arena_multiple_chunks() {
    let mut arena = Arena::<u8, 2, false, true>::new();
    let item1 = arena.allocate(1_u8);
    let item2 = arena.allocate(2_u8);
    let item3 = arena.allocate(3_u8);
    let item4 = arena.allocate(4_u8);
    let item5 = arena.allocate(5_u8);
    assert_eq!(*arena.get(item1), 1_u8);
    assert_eq!(*arena.get(item2), 2_u8);
    assert_eq!(*arena.get(item3), 3_u8);
    assert_eq!(*arena.get(item4), 4_u8);
    assert_eq!(*arena.get(item5), 5_u8);
}

#[test]
fn arena_ensure_dropped() {
    struct Item<'a> {
        drop_flag: &'a Cell<bool>,
    }

    impl Drop for Item<'_> {
        fn drop(&mut self) {
            assert!(!self.drop_flag.get(), "value dropped twice");
            self.drop_flag.set(true);
        }
    }

    let drop_flags: [Cell<bool>; 32] = Default::default();
    let mut arena = Arena::<Item, 4, false, true>::new();

    for flag in &drop_flags {
        let _ = arena.allocate(Item { drop_flag: flag });
    }

    assert!(!drop_flags.iter().all(Cell::get));
    core::mem::drop(arena);
    assert!(drop_flags.iter().all(Cell::get));
}

#[test]
fn arena_same_life_ref() {
    struct Item {
        next: Cell<Option<ItemRef>>,
    }

    let mut arena = Arena::<Item, 16, false, true>::new();
    let item1 = arena.allocate(Item { next: Cell::new(None) });
    let item2 = arena.allocate(Item { next: Cell::new(Some(item1)) });
    arena.get(item1).next.set(Some(item2));
    assert_eq!(arena.get(item1).next.get(), Some(item2));
    assert_eq!(arena.get(item2).next.get(), Some(item1));
}

#[test]
fn tests_empty() {
    let arena = Arena::<u8, 16, false, true>::new();
    assert_eq!(arena.len(), 0);
    assert!(arena.is_empty());
}

#[test]
fn tests_basic() {
    let mut arena = Arena::<u8, 16, false, true>::new();
    let item1 = arena.allocate(1_u8);
    let item2 = arena.allocate(2_u8);
    let item3 = arena.allocate(3_u8);

    assert_eq!(*arena.get(item1), 1_u8);
    assert_eq!(*arena.get(item2), 2_u8);
    assert_eq!(*arena.get(item3), 3_u8);
    assert_eq!(arena.len(), 3);
    assert!(!arena.is_empty());
}

#[test]
fn tests_multiple_chunks() {
    let mut arena = Arena::<u8, 4, false, true>::new();
    let items: Vec<ItemRef> = (0..20_u8).map(|i| arena.allocate(i)).collect();

    assert!(items.into_iter().map(|n| *arena.get(n)).eq(0..20));
    assert_eq!(arena.len(), 20);
}

#[test]
fn tests_ensure_dropped() {
    struct Item<'a> {
        drop_flag: &'a Cell<bool>,
    }

    impl Drop for Item<'_> {
        fn drop(&mut self) {
            assert!(!self.drop_flag.get(), "value dropped twice");
            self.drop_flag.set(true);
        }
    }

    let drop_flags: [Cell<bool>; 32] = Default::default();
    let mut arena = Arena::<Item, 4, false, true>::new();

    for flag in &drop_flags {
        arena.allocate(Item { drop_flag: flag });
    }

    assert!(drop_flags.iter().all(|f| !f.get()));
    drop(arena);
    assert!(drop_flags.iter().all(Cell::get));
}

#[test]
fn tests_same_life_ref() {
    struct Item {
        next: Cell<Option<ItemRef>>,
    }

    let mut arena = Arena::<Item, 16, false, true>::new();
    let item1 = arena.allocate(Item { next: Cell::new(None) });
    let item2 = arena.allocate(Item { next: Cell::new(Some(item1)) });
    arena.get(item1).next.set(Some(item2));
    assert_eq!(arena.get(item1).next.get(), Some(item2));
}

#[test]
fn tests_iter() {
    let mut arena = Arena::<u32, 6, false, false>::new();
    for i in 15..35_u32 {
        arena.alloc_shared(i);
    }
    let mut iter = arena.iter();
    let mut seen = Vec::new();
    while let Some(n) = iter.next() {
        seen.push(*n);
    }
    assert!(seen.into_iter().eq(15..35));
}

#[test]
fn iter_unchecked() {
    let mut arena = Arena::<u8, 5, false, true>::new();
    for i in 0..32_u8 {
        arena.allocate(i);
    }
    let mut iter = arena.iter();
    let mut seen = Vec::new();
    while let Some(n) = iter.next() {
        seen.push(*n);
    }
    assert!(seen.into_iter().eq(0..32));
}

#[test]
fn iter_mut() {
    let mut arena = Arena::<u8, 4, false, true>::new();
    for i in 0..32_u8 {
        arena.allocate(i);
    }
    let mut iter = arena.iter_mut();
    let mut seen = Vec::new();
    while let Some(n) = iter.next() {
        seen.push(*n);
    }
    assert!(seen.into_iter().eq(0..32));
}

#[test]
fn into_iter() {
    let mut arena = Arena::<u16, 5, false, true>::new();
    for i in 25..50_u16 {
        arena.allocate(i);
    }
    let mut iter = arena.into_iter();
    let mut seen = Vec::new();
    while let Some(n) = iter.next() {
        seen.push(n);
    }
    assert!(seen.into_iter().eq(25..50));
}

#[test]
fn position() {
    let mut arena = Arena::<u8, 4, true, true>::new();
    for i in 0..32_u8 {
        arena.allocate(i);
    }

    let mut iter = arena.iter_mut();
    for _ in 0..8 {
        iter.next();
    }
    let pos1 = iter.as_position();
    for _ in 0..14 {
        iter.next();
    }
    let pos2 = iter.as_position();

    for i in 32..48 {
        arena.allocate(i);
    }

    assert_eq!(arena.len(), 48);
    let mut seen = Vec::new();
    let mut resumed = arena.iter_mut_at(&pos1).unwrap();
    while let Some(n) = resumed.next() {
        seen.push(*n);
    }
    assert!(seen.into_iter().eq(8..48));
    let mut seen = Vec::new();
    let mut resumed = arena.iter_mut_at(&pos2).unwrap();
    while let Some(n) = resumed.next() {
        seen.push(*n);
    }
    assert!(seen.into_iter().eq(22..48));
}

#[test]
#[should_panic]
fn tests_bad_position() {
    let mut arena = Arena::<u8, 4, true, true>::new();
    for i in 0..8_u8 {
        arena.allocate(i);
    }

    let mut iter = arena.iter_mut();
    for _ in 0..4 {
        iter.next();
    }
    let pos = iter.as_position();

    drop(arena);
    let mut arena = Arena::<u8, 4, true, true>::new();
    for i in 0..8_u8 {
        arena.allocate(i);
    }
    arena.iter_mut_at(&pos).unwrap();
}

#[test]
fn five_values_in_chunks_of_two() {
    let mut arena = Arena::<u8, 2, false, true>::new();
    for v in [1_u8, 2, 3, 4, 5] {
        arena.allocate(v);
    }
    assert_eq!(arena.chunk_count(), 3);
    assert_eq!(arena.len(), 5);
    let mut iter = arena.iter();
    let mut seen = Vec::new();
    while let Some(n) = iter.next() {
        seen.push(*n);
    }
    assert_eq!(seen, vec![1, 2, 3, 4, 5]);
}

#[test]
fn no_allocation_no_chunk_no_drop() {
    struct Item<'a>(&'a Cell<u32>);

    impl Drop for Item<'_> {
        fn drop(&mut self) {
            self.0.set(self.0.get() + 1);
        }
    }

    let drops = Cell::new(0_u32);
    let arena = Arena::<Item, 4, false, true>::new();
    assert_eq!(arena.chunk_count(), 0);
    drop(arena);
    assert_eq!(drops.get(), 0);
}

#[test]
fn chunk_count_is_rounded_up_quotient() {
    for n in 0..40_usize {
        let mut arena = Arena::<usize, 7, false, true>::new();
        for i in 0..n {
            arena.allocate(i);
        }
        assert_eq!(arena.chunk_count(), (n + 6) / 7);
        assert_eq!(arena.len(), n);
    }
}

#[test]
fn allocation_order_kept() {
    let mut arena = Arena::<u32, 3, false, true>::new();
    let values = [9_u32, 4, 4, 0, 17, 3, 3, 8];
    let refs: Vec<ItemRef> = values.iter().map(|v| arena.allocate(*v)).collect();
    assert_eq!(arena.len(), values.len());
    for (r, v) in refs.iter().zip(values.iter()) {
        assert_eq!(arena.get(*r), v);
    }
    let mut iter = arena.iter();
    let mut seen = Vec::new();
    while let Some(n) = iter.next() {
        seen.push(*n);
    }
    assert_eq!(seen, values.to_vec());
}

#[test]
fn handles_name_chunk_and_slot() {
    let mut arena = Arena::<u8, 3, false, true>::new();
    let refs: Vec<ItemRef> = (0..5_u8).map(|i| arena.allocate(i)).collect();
    assert_eq!(refs[0], ItemRef { chunk: 0, index: 0 });
    assert_eq!(refs[2], ItemRef { chunk: 0, index: 2 });
    assert_eq!(refs[3], ItemRef { chunk: 1, index: 0 });
    assert_eq!(refs[4], ItemRef { chunk: 1, index: 1 });
}

#[test]
fn get_mut_changes_one_item() {
    let mut arena = Arena::<u8, 2, false, true>::new();
    let refs: Vec<ItemRef> = (0..5_u8).map(|i| arena.allocate(i)).collect();
    *arena.get_mut(refs[3]) = 30;
    let mut iter = arena.iter();
    let mut seen = Vec::new();
    while let Some(n) = iter.next() {
        seen.push(*n);
    }
    assert_eq!(seen, vec![0, 1, 2, 30, 4]);
}

#[test]
fn iter_mut_writes_back() {
    let mut arena = Arena::<u16, 3, false, true>::new();
    for i in 0..10_u16 {
        arena.allocate(i);
    }
    let mut iter = arena.iter_mut();
    while let Some(n) = iter.next() {
        *n *= 2;
    }
    let mut iter = arena.iter();
    let mut seen = Vec::new();
    while let Some(n) = iter.next() {
        seen.push(*n);
    }
    assert_eq!(seen, (0..10).map(|n| n * 2).collect::<Vec<u16>>());
}

#[test]
fn iterator_stays_at_end() {
    let mut arena = Arena::<u8, 2, false, true>::new();
    for i in 0..4_u8 {
        arena.allocate(i);
    }
    let mut iter = arena.iter();
    for _ in 0..4 {
        assert!(iter.next().is_some());
    }
    assert!(iter.next().is_none());
    assert!(iter.next().is_none());
}

#[test]
fn into_iter_drops_what_it_did_not_yield() {
    struct Item<'a> {
        drop_flag: &'a Cell<bool>,
    }

    impl Drop for Item<'_> {
        fn drop(&mut self) {
            assert!(!self.drop_flag.get(), "value dropped twice");
            self.drop_flag.set(true);
        }
    }

    let drop_flags: [Cell<bool>; 10] = Default::default();
    let mut arena = Arena::<Item, 3, false, true>::new();
    for flag in &drop_flags {
        arena.allocate(Item { drop_flag: flag });
    }
    let mut iter = arena.into_iter();
    for _ in 0..4 {
        drop(iter.next());
    }
    assert!(drop_flags[..4].iter().all(Cell::get));
    assert!(drop_flags[4..].iter().all(|f| !f.get()));
    drop(iter);
    assert!(drop_flags.iter().all(Cell::get));
}

#[test]
fn try_alloc_fills_chunks() {
    let mut arena = Arena::<u8, 2, false, true>::new();
    for i in 0..5_u8 {
        assert!(arena.try_alloc(i).is_some());
    }
    assert!(arena.try_alloc_shared(5).is_some());
    assert_eq!(arena.len(), 6);
    assert_eq!(arena.chunk_count(), 3);
}

#[test]
fn resumed_count_after_more_allocations() {
    let mut arena = Arena::<u8, 4, true, false>::new();
    for i in 0..10_u8 {
        arena.alloc_shared(i);
    }
    let mut iter = arena.iter();
    for _ in 0..3 {
        iter.next();
    }
    let pos = iter.as_position();
    for i in 10..17_u8 {
        arena.alloc_shared(i);
    }
    let mut resumed = arena.iter_at(&pos).unwrap();
    let mut count = 0;
    while resumed.next().is_some() {
        count += 1;
    }
    assert_eq!(count, 10 - 3 + 7);
}

#[test]
fn position_at_end_sees_later_items() {
    let mut arena = Arena::<u8, 4, true, false>::new();
    for i in 0..4_u8 {
        arena.alloc_shared(i);
    }
    let mut iter = arena.iter();
    while iter.next().is_some() {}
    let pos = iter.as_position();
    arena.alloc_shared(4);
    arena.alloc_shared(5);
    let mut resumed = arena.iter_at(&pos).unwrap();
    assert_eq!(resumed.next(), Some(&4));
    assert_eq!(resumed.next(), Some(&5));
    assert_eq!(resumed.next(), None);
}

#[test]
fn position_from_empty_arena_fits_any() {
    let first = Arena::<u8, 4, true, false>::new();
    let pos = first.iter().as_position();
    let mut second = Arena::<u8, 4, true, false>::new();
    second.alloc_shared(1);
    second.alloc_shared(2);
    let mut resumed = second.iter_at(&pos).unwrap();
    assert_eq!(resumed.next(), Some(&1));
    assert_eq!(resumed.next(), Some(&2));
    assert_eq!(resumed.next(), None);
}

#[test]
fn position_from_other_arena_is_refused() {
    let mut first = Arena::<u8, 4, true, false>::new();
    let mut second = Arena::<u8, 4, true, false>::new();
    for i in 0..6_u8 {
        first.alloc_shared(i);
        second.alloc_shared(i);
    }
    let mut iter = first.iter();
    iter.next();
    let pos = iter.as_position();
    assert!(second.iter_at(&pos).is_none());
    assert!(first.iter_at(&pos).is_some());
}

#[test]
fn layout_puts_larger_alignment_first() {
    assert_eq!(
        ChunkMemory::<u64>::layout(4),
        Some(ChunkLayout { size: 48, align: 8, link_offset: 0, storage_offset: 16 })
    );
    assert_eq!(
        ChunkMemory::<u8>::layout(16),
        Some(ChunkLayout { size: 32, align: 8, link_offset: 0, storage_offset: 16 })
    );
    assert_eq!(ChunkMemory::<u64>::layout(usize::MAX), None);
    assert!(ChunkMemory::<u64>::try_new(usize::MAX).is_none());
    assert!(ChunkMemory::<u64>::try_new(4).is_some());
}

#[test]
fn default_is_empty_and_iter_clones_resume_in_place() {
    let mut arena: fixed_typed_arena::arena::Arena<u8, fixed_typed_arena::Options<3, false, true>> =
        Default::default();
    assert!(arena.is_empty());
    assert_eq!(arena.chunk_count(), 0);
    for i in 0..5_u8 {
        arena.allocate(i);
    }
    let mut iter = arena.iter();
    iter.next();
    iter.next();
    let mut copy = iter.clone();
    assert_eq!(iter.next(), Some(&2));
    assert_eq!(copy.next(), Some(&2));
    assert_eq!(copy.next(), Some(&3));
}
