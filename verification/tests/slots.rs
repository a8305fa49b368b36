use mmtk_dummyvm::slots::{
    CompressedOopSlot, DummyVMMemorySlice, DummyVMSlot, OffsetSlot, SimpleSlot, TaggedSlot,
    TAG_BITS_MASK,
};

const W: usize = std::mem::size_of::<usize>();

#[test]
fn simple_slot_holds_plain_address() {
    let s = SimpleSlot::from_address(0x4000);
    assert_eq!(s.as_address(), 0x4000);
    assert_eq!(s.load_value(0x1008), Some(0x1008));
    assert_eq!(s.load_value(0), None);
    assert_eq!(s.store_value(0x1008), 0x1008);
}

#[test]
fn compressed_slot_shifts_by_three() {
    let s = CompressedOopSlot::from_address(0x4000);
    assert_eq!(s.as_address(), 0x4000);
    assert_eq!(s.load_value(0x200), Some(0x1000));
    assert_eq!(s.load_value(0), None);
    assert_eq!(s.store_value(0x1000), 0x200);
    assert_eq!(s.store_value(0x7_ffff_fff8), 0xffff_ffff);
    assert_eq!(s.load_value(0xffff_ffff), Some(0x7_ffff_fff8));
}

#[test]
fn compressed_slot_truncates_high_addresses() {
    let s = CompressedOopSlot::from_address(0x4000);
    // An address at 2^35 does not fit: its compressed form wraps to zero.
    assert_eq!(s.store_value(0x8_0000_0000), 0);
    // Low bits below the shift are dropped.
    assert_eq!(s.store_value(0x1007), 0x200);
}

#[test]
fn offset_slot_points_into_object_middle() {
    let s = OffsetSlot::new_with_offset(0x4000, 0x10);
    assert_eq!(s.slot_address(), 0x4000);
    assert_eq!(s.offset(), 0x10);
    assert_eq!(s.load_value(0x1010), Some(0x1000));
    assert_eq!(s.load_value(0x10), None);
    assert_eq!(s.store_value(0x1000), 0x1010);
}

#[test]
fn offset_slot_without_offset() {
    let s = OffsetSlot::new_no_offset(0x4000);
    assert_eq!(s.slot_address(), 0x4000);
    assert_eq!(s.offset(), 0);
    assert_eq!(s.load_value(0x1000), Some(0x1000));
    assert_eq!(s.store_value(0x1000), 0x1000);
}

#[test]
fn tagged_slot_masks_and_keeps_tag() {
    assert_eq!(TAG_BITS_MASK, 0b11);
    let s = TaggedSlot::new(0x4000);
    assert_eq!(s.as_address(), 0x4000);
    assert_eq!(s.load_value(0x1003), Some(0x1000));
    assert_eq!(s.load_value(0x1000), Some(0x1000));
    assert_eq!(s.load_value(0x3), None);
    assert_eq!(s.store_value(0x2000, 0x1001), 0x2001);
    assert_eq!(s.store_value(0x2000, 0x1000), 0x2000);
}

#[test]
fn tagged_store_keeps_tag_bits() {
    let s = TaggedSlot::new(0x4000);
    for tag in 0..4usize {
        let old = 0x1000 | tag;
        let new = s.store_value(0x3000, old);
        assert_eq!(new & TAG_BITS_MASK, tag);
        assert_eq!(s.load_value(new), Some(0x3000));
    }
}

fn all_kinds() -> Vec<DummyVMSlot> {
    vec![
        DummyVMSlot::Simple(SimpleSlot::from_address(0x100)),
        DummyVMSlot::Compressed(CompressedOopSlot::from_address(0x200)),
        DummyVMSlot::Offset(OffsetSlot::new_with_offset(0x300, 0x18)),
        DummyVMSlot::Tagged(TaggedSlot::new(0x400)),
    ]
}

#[test]
fn dummy_slot_dispatches_to_its_kind() {
    let kinds = all_kinds();
    let addrs: Vec<usize> = kinds.iter().map(|s| s.address()).collect();
    assert_eq!(addrs, vec![0x100, 0x200, 0x300, 0x400]);
    let compressed: Vec<bool> = kinds.iter().map(|s| s.is_compressed()).collect();
    assert_eq!(compressed, vec![false, true, false, false]);
    let reads: Vec<bool> = kinds.iter().map(|s| s.store_reads_current()).collect();
    assert_eq!(reads, vec![false, false, false, true]);
    assert_eq!(kinds[0].load_value(0x1000), Some(0x1000));
    assert_eq!(kinds[1].load_value(0x200), Some(0x1000));
    assert_eq!(kinds[2].load_value(0x1018), Some(0x1000));
    assert_eq!(kinds[3].load_value(0x1002), Some(0x1000));
    assert_eq!(kinds[0].store_value(0x1000, 0), 0x1000);
    assert_eq!(kinds[1].store_value(0x1000, 0), 0x200);
    assert_eq!(kinds[2].store_value(0x1000, 0), 0x1018);
    assert_eq!(kinds[3].store_value(0x1000, 0x2), 0x1002);
}

#[test]
fn load_after_store_gives_object_back() {
    for slot in all_kinds() {
        for object in [0x8usize, 0x1000, 0x7_ffff_fff8] {
            for current in [0usize, 0x1, 0x3, 0xdead_beef] {
                let word = slot.store_value(object, current);
                assert_eq!(slot.load_value(word), Some(object));
            }
        }
    }
}

#[test]
fn store_after_load_keeps_word() {
    for slot in all_kinds() {
        for word in [0x18usize, 0x1000, 0x1002, 0x1018, 0xffff_fff0] {
            if let Some(object) = slot.load_value(word) {
                assert_eq!(slot.store_value(object, word), word);
            }
        }
    }
}

#[test]
fn null_words_load_as_no_object() {
    let kinds = all_kinds();
    assert_eq!(kinds[0].load_value(0), None);
    assert_eq!(kinds[1].load_value(0), None);
    assert_eq!(kinds[2].load_value(0x18), None);
    assert_eq!(kinds[3].load_value(0x3), None);
}

#[test]
fn memory_slice_reports_its_extent() {
    let slice = DummyVMMemorySlice::new(0x1000, 3);
    assert_eq!(slice.start(), 0x1000);
    assert_eq!(slice.bytes(), 3 * W);
    assert_eq!(slice.object(), None);
}

#[test]
fn memory_slice_iterates_its_words() {
    let slice = DummyVMMemorySlice::new(0x1000, 3);
    let mut it = slice.iter_slots();
    let mut seen = Vec::new();
    while let Some(slot) = it.next() {
        seen.push(slot);
    }
    assert_eq!(
        seen,
        vec![
            DummyVMSlot::Simple(SimpleSlot::from_address(0x1000)),
            DummyVMSlot::Simple(SimpleSlot::from_address(0x1000 + W)),
            DummyVMSlot::Simple(SimpleSlot::from_address(0x1000 + 2 * W)),
        ]
    );
    assert_eq!(it.next(), None);
}

#[test]
fn empty_memory_slice_has_no_slots() {
    let slice = DummyVMMemorySlice::new(0x1000, 0);
    assert_eq!(slice.bytes(), 0);
    assert_eq!(slice.iter_slots().next(), None);
}

#[test]
fn copy_moves_whole_words() {
    let src = DummyVMMemorySlice::new(0x1000, 5);
    let tgt = DummyVMMemorySlice::new(0x8000, 5);
    assert_eq!(DummyVMMemorySlice::words_to_copy(&src, &tgt), 5);
    let empty = DummyVMMemorySlice::new(0x8000, 0);
    assert_eq!(DummyVMMemorySlice::words_to_copy(&empty, &empty), 0);
    // The target's size decides.
    assert_eq!(DummyVMMemorySlice::words_to_copy(&src, &empty), 0);
}

#[test]
fn memory_slice_iteration_ends_with_none_forever() {
    let slice = DummyVMMemorySlice::new(0x2000, 2);
    let mut it = slice.iter_slots();
    assert_eq!(slice.bytes() / W, 2);
    assert_eq!(it.next(), Some(DummyVMSlot::Simple(SimpleSlot::from_address(0x2000))));
    assert_eq!(it.next(), Some(DummyVMSlot::Simple(SimpleSlot::from_address(0x2000 + W))));
    for _ in 0..5 {
        assert_eq!(it.next(), None);
    }
}

#[test]
fn compressed_load_after_store_masks_the_address() {
    let s = CompressedOopSlot::from_address(0x4000);
    for object in [0x1007usize, 0x8_0000_1000, 0xf_0000_0010, 0x1000] {
        let expected = object & 0x7_ffff_fff8;
        let loaded = s.load_value(s.store_value(object));
        assert_eq!(loaded, if expected == 0 { None } else { Some(expected) });
        let holds = object % 8 == 0 && object < (1 << 35);
        assert_eq!(loaded == Some(object), holds);
    }
}

#[test]
fn dummy_slot_matches_its_kind() {
    let compressed = CompressedOopSlot::from_address(0x200);
    let tagged = TaggedSlot::new(0x400);
    let offset = OffsetSlot::new_with_offset(0x300, 0x18);
    assert_eq!(DummyVMSlot::Compressed(compressed).load_value(0x123), compressed.load_value(0x123));
    assert_eq!(DummyVMSlot::Compressed(compressed).store_value(0x1000, 7), compressed.store_value(0x1000) as usize);
    assert_eq!(DummyVMSlot::Tagged(tagged).store_value(0x1000, 1), tagged.store_value(0x1000, 1));
    assert_eq!(DummyVMSlot::Offset(offset).load_value(0x1018), offset.load_value(0x1018));
    assert_eq!(DummyVMSlot::Offset(offset).address(), offset.slot_address());
}
