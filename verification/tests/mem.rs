use mips_emulator::mem::{Memory, MEMORY_SIZE};

#[test]
fn pages_empty_zeroes() {
    let m = Memory::default();

    // an empty page reads as zeros
    assert_eq!(m.get_byte(0).expect("byte not some"), 0, "byte not 0");
    assert_eq!(m.get_word(0).expect("word not some"), 0, "word not 0");

    // beyond the limit there is nothing
    assert!(m.get_byte(MEMORY_SIZE as u32).is_none(), "byte not none");
    assert!(m.get_word(MEMORY_SIZE as u32).is_none(), "word not none");
}

#[test]
fn pages_initialize() {
    let mut m = Memory::default();
    *m.get_byte_mut(0).expect("page should be constructed") = 5;

    m.write_slice(1, &[1, 2, 3, 4]).expect("page good");
    assert_eq!(m.get_byte(4).unwrap(), 4);
}

#[test]
fn unaligned_word_access_fails() {
    let mut m = Memory::default();
    m.set_word(0x40, 0x0102_0304).unwrap();
    for addr in [0x41u32, 0x42, 0x43, 0x7FFF, 0xF_FFFD] {
        assert_eq!(m.get_word(addr), None);
        assert_eq!(m.set_word(addr, 0xFFFF_FFFF), None);
    }
    assert_eq!(m.get_word(0x40), Some(0x0102_0304));
    assert_eq!(m.get_word(0x44), Some(0));
    // the failed writes allocated nothing
    assert!(m.0[31].is_none());
}

#[test]
fn fresh_memory_reads_zero_everywhere() {
    let m = Memory::default();
    for k in [0u32, 1, 0x7FFF, 0x8000, 0x8_1234, 0xF_FFFF] {
        assert_eq!(m.get_byte(k), Some(0));
        assert_eq!(m.get_word(k & !3), Some(0));
    }
    // reading allocates nothing
    assert!(m.0.iter().all(|p| p.is_none()));
}

#[test]
fn a_byte_that_was_set_is_read_back() {
    let mut m = Memory::default();
    for (k, v) in [(0u32, 1u8), (0x7FFF, 2), (0x8000, 3), (0xF_FFFF, 255)] {
        assert_eq!(m.set_byte(k, v), Some(()));
        assert_eq!(m.get_byte(k), Some(v));
    }
    assert_eq!(m.get_byte(1), Some(0));
    // pages 0, 1 and 31 were written to, and only they are allocated
    for (i, page) in m.0.iter().enumerate() {
        assert_eq!(page.is_some(), i == 0 || i == 1 || i == 31);
    }
}

#[test]
fn out_of_range_is_refused() {
    let mut m = Memory::default();
    assert_eq!(m.set_byte(MEMORY_SIZE as u32, 1), None);
    assert_eq!(m.set_word(MEMORY_SIZE as u32, 1), None);
    assert_eq!(m.set_byte(0xFFFF_FFFF, 1), None);
    assert!(m.get_byte_mut(0x10_0000).is_none());
    assert_eq!(m.write_slice(0x10_0000, &[1]), None);
    assert_eq!(m.get_slice(0x10_0000, 1), None);
    assert_eq!(m.get_byte(0xF_FFFF), Some(0));
    assert_eq!(m.get_word(0xF_FFFC), Some(0));
}

#[test]
fn words_are_little_endian() {
    let mut m = Memory::default();
    m.set_word(0x100, 0x1122_3344).unwrap();
    assert_eq!(m.get_byte(0x100), Some(0x44));
    assert_eq!(m.get_byte(0x101), Some(0x33));
    assert_eq!(m.get_byte(0x102), Some(0x22));
    assert_eq!(m.get_byte(0x103), Some(0x11));
    m.set_byte(0x107, 0x80).unwrap();
    assert_eq!(m.get_word(0x104), Some(0x8000_0000));
    assert_eq!(m.get_word(0x100), Some(0x1122_3344));
    m.set_word(0x100, 0xFFFF_FFFF).unwrap();
    assert_eq!(m.get_word(0x100), Some(0xFFFF_FFFF));
}

#[test]
fn bulk_access_stays_within_one_page() {
    let mut m = Memory::default();
    // up to the last byte of page 0
    assert_eq!(m.write_slice(0x7FFE, &[1, 2]), Some(()));
    assert_eq!(m.get_slice(0x7FFD, 3), Some(vec![0, 1, 2]));
    // across the boundary
    assert_eq!(m.write_slice(0x7FFF, &[9, 9]), None);
    assert_eq!(m.set_slice(0x7FFF, &[9, 9]), None);
    assert_eq!(m.get_slice(0x7FFF, 2), None);
    assert_eq!(m.get_byte(0x7FFF), Some(2));
    assert!(m.0[1].is_none());
    // a whole page, and one byte more
    assert_eq!(m.get_slice(0x8000, 0x8000).map(|v| v.len()), Some(0x8000));
    assert_eq!(m.get_slice(0x8000, 0x8001), None);
    assert_eq!(m.write_slice(0x8000, &vec![7u8; 0x8000]), Some(()));
    assert_eq!(m.write_slice(0x8000, &vec![7u8; 0x8001]), None);
    assert_eq!(m.get_byte(0xFFFF), Some(7));
    // an unallocated page reads as zeros and stays unallocated
    assert_eq!(m.get_slice(0x1_0000, 4), Some(vec![0, 0, 0, 0]));
    assert!(m.0[2].is_none());
    // nothing to write is written at once, and the page is there afterwards
    assert_eq!(m.set_slice(0x1_8000, &[]), Some(()));
    assert!(m.0[3].is_some());
    assert_eq!(m.get_slice(0x1_8000, 0), Some(vec![]));
}

#[test]
fn clear_deallocates() {
    let mut m = Memory::default();
    m.set_word(0x20, 5).unwrap();
    m.set_byte(0x9_0000, 5).unwrap();
    m.clear();
    assert!(m.0.iter().all(|p| p.is_none()));
    assert_eq!(m.get_word(0x20), Some(0));
}

#[test]
fn addresses_split_into_page_and_offset() {
    assert!(Memory::is_aligned(0));
    assert!(Memory::is_aligned(0xFFFF_FFFC));
    assert!(!Memory::is_aligned(0xFFFF_FFFE));
    assert_eq!(Memory::addr_to_indices(0), (0, 0));
    assert_eq!(Memory::addr_to_indices(0x7FFF), (0, 0x7FFF));
    assert_eq!(Memory::addr_to_indices(0x8000), (1, 0));
    assert_eq!(Memory::addr_to_indices(0xF_FFFF), (31, 0x7FFF));
    assert_eq!(Memory::addr_to_indices(0x10_0000), (32, 0));
    assert_eq!(Memory::addr_to_indices(0xFFFF_FFFF), (0x1_FFFF, 0x7FFF));
    let page = Memory::make_page();
    assert_eq!(page.len(), 0x8000);
    assert!(page.iter().all(|b| *b == 0));
}

#[test]
fn a_byte_can_be_changed_in_place() {
    let mut m = Memory::default();
    m.set_byte(0x8001, 4).unwrap();
    let cell = m.get_byte_mut(0x8001).unwrap();
    assert_eq!(*cell, 4);
    *cell += 1;
    assert_eq!(m.get_byte(0x8001), Some(5));
    // asking for a byte allocates its page
    assert_eq!(m.get_byte_mut(0x3_0000).map(|b| *b), Some(0));
    assert!(m.0[6].is_some());
}
