use std::collections::HashMap;

use mmtk_dummyvm::scanning::{in_heap_range, round_down, VoBitCursor, VoBitProbe, INTERIOR_LIMIT};

/// Runs the interior-pointer search over a bitmap memory where unlisted bytes
/// read zero; returns the result and the number of bytes read.
fn search(base: usize, pointer: usize, vo_bits: usize, mem: &HashMap<usize, u8>) -> (Option<usize>, usize) {
    assert!(VoBitCursor::can_start_at(base, pointer, vo_bits));
    let mut cursor = VoBitCursor::start(base, pointer, vo_bits);
    let mut reads = 0;
    loop {
        let byte = *mem.get(&cursor.byte_addr).unwrap_or(&0);
        reads += 1;
        assert!(cursor.byte_addr >= vo_bits);
        assert!(cursor.can_step(byte));
        match cursor.step(byte) {
            VoBitProbe::Next(next) => cursor = next,
            VoBitProbe::Found(object) => return (Some(object), reads),
            VoBitProbe::NotFound => return (None, reads),
        }
    }
}

#[test]
fn round_down_to_power_of_two() {
    assert_eq!(round_down(0x1013, 8), 0x1010);
    assert_eq!(round_down(0x1010, 8), 0x1010);
    assert_eq!(round_down(7, 8), 0);
    assert_eq!(round_down(0x1013, 1), 0x1013);
    assert_eq!(round_down(0x1013, 0x1000), 0x1000);
}

#[test]
fn round_down_other_alignment_clears_bits_below() {
    // 6 - 1 = 0b101: clearing those bits of 0b1111 leaves 0b1010.
    assert_eq!(round_down(0b1111, 6), 0b1010);
}

#[test]
fn heap_range_is_half_open() {
    assert!(in_heap_range(0x1000, 0x1000, 0x2000));
    assert!(in_heap_range(0x1fff, 0x1000, 0x2000));
    assert!(!in_heap_range(0x2000, 0x1000, 0x2000));
    assert!(!in_heap_range(0xfff, 0x1000, 0x2000));
}

#[test]
fn first_probe_counts_bits_from_heap_base() {
    let c = VoBitCursor::start(0x10000, 0x10093, 0x100);
    // word 0x10090 is 0x90 bytes into the heap: bit 2, in the first byte.
    assert_eq!(
        c,
        VoBitCursor { base: 0x10000, vo_bits: 0x100, obj: 0x10090, covered: 0, byte_addr: 0x100, shift: 2 }
    );
}

#[test]
fn later_probes_count_bits_from_heap_base() {
    let c = VoBitCursor::start(0x10000, 0x10013, 0x100);
    // 0x10008 is 8 bytes into the heap: bit 0 of the first byte.
    assert_eq!(
        c.step(0),
        VoBitProbe::Next(VoBitCursor {
            base: 0x10000,
            vo_bits: 0x100,
            obj: 0x10008,
            covered: 8,
            byte_addr: 0x100,
            shift: 0
        })
    );
}

#[test]
fn marked_pointer_word_is_its_own_object() {
    let mut mem = HashMap::new();
    mem.insert(0x100, 0b1);
    assert_eq!(search(0x10000, 0x10013, 0x100, &mem), (Some(0x10014), 1));
}

#[test]
fn search_returns_nearest_marked_word_below() {
    // Bits 0 and 1 of the first byte are set. Words 0x10090, 0x10088 and 0x10080
    // have bit 2 (clear); 0x10078 has bit 1, the nearest set bit.
    let mut mem = HashMap::new();
    mem.insert(0x100, 0b011);
    assert_eq!(search(0x10000, 0x10093, 0x100, &mem), (Some(0x1007c), 4));
}

#[test]
fn found_object_resolves_to_itself() {
    let mut mem = HashMap::new();
    mem.insert(0x100, 0b011);
    let (found, _) = search(0x10000, 0x10093, 0x100, &mem);
    let object = found.unwrap();
    assert_eq!(search(0x10000, object - 4, 0x100, &mem), (Some(object), 1));
}

#[test]
fn more_marks_find_a_nearer_object() {
    let mut fewer = HashMap::new();
    fewer.insert(0x100, 0b010);
    let mut more = HashMap::new();
    more.insert(0x100, 0b110);
    let (a, _) = search(0x10000, 0x10093, 0x100, &fewer);
    let (b, _) = search(0x10000, 0x10093, 0x100, &more);
    assert_eq!(a, Some(0x1007c));
    assert_eq!(b, Some(0x10094));
    assert!(b >= a);
}

#[test]
fn search_gives_up_after_the_interior_limit() {
    let mem = HashMap::new();
    let (result, reads) = search(0x10000, 0x20000, 0x100, &mem);
    assert_eq!(result, None);
    assert_eq!(reads, INTERIOR_LIMIT / 8 + 1);
}

#[test]
fn search_finds_word_at_the_limit() {
    // 64 words below 0x20038 is 0x1fe38, 0xfe38 bytes into the heap: the only probe
    // with bit 1016 (byte 0x100 + 127, bit 0).
    let mut mem = HashMap::new();
    mem.insert(0x100 + 127, 0b1);
    assert_eq!(search(0x10000, 0x20038, 0x100, &mem), (Some(0x1fe3c), 65));
}

#[test]
fn search_stops_at_heap_start() {
    let mem = HashMap::new();
    assert_eq!(search(0x1000, 0x1010, 0x2000, &mem), (None, 3));
    assert_eq!(search(0x1000, 0x1000, 0x2000, &mem), (None, 1));
}

#[test]
fn search_ignores_marks_below_heap_start() {
    // A set bit anywhere else in the bitmap does not lead below the heap.
    let mut mem = HashMap::new();
    for a in 0x1f00..0x2000 {
        mem.insert(a, 0xff);
    }
    assert_eq!(search(0x1000, 0x1000, 0x2000, &mem), (None, 1));
}

#[test]
fn search_from_address_zero_heap_ends_there() {
    let mem = HashMap::new();
    assert_eq!(search(0, 0x10, 0x100, &mem), (None, 3));
}

#[test]
fn search_cannot_start_below_heap_base() {
    assert!(!VoBitCursor::can_start_at(0x10000, 0xfff8, 0x100));
    assert!(!VoBitCursor::can_start_at(0, 0x10000_0000, usize::MAX));
    assert!(VoBitCursor::can_start_at(0x10000, 0x10000, 0x100));
}

#[test]
fn step_at_heap_start() {
    let c = VoBitCursor::start(0, 3, 0x100);
    assert_eq!(c.obj, 0);
    assert!(c.can_step(0));
    assert_eq!(c.step(0), VoBitProbe::NotFound);
    assert!(c.can_step(1));
    assert_eq!(c.step(1), VoBitProbe::Found(4));
}
