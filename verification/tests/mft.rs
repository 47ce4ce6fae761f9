use dds_workbench::fixup::FixupError;
use dds_workbench::mft::{parse_mft_entry, MftError, FLAG_DIR, FLAG_IN_USE};

fn build_valid_mft_entry(flags: u16, usn: u16, fx0: u16, fx1: u16) -> Vec<u8> {
    let mut b = vec![0u8; 1024];
    let put16 = |b: &mut Vec<u8>, o: usize, v: u16| b[o..o + 2].copy_from_slice(&v.to_le_bytes());
    let put32 = |b: &mut Vec<u8>, o: usize, v: u32| b[o..o + 4].copy_from_slice(&v.to_le_bytes());
    b[0..4].copy_from_slice(b"FILE");
    put16(&mut b, 0x04, 0x30); put16(&mut b, 0x06, 3);
    b[0x08..0x10].copy_from_slice(&0xDEAD_BEEF_CAFE_BABEu64.to_le_bytes());
    put16(&mut b, 0x10, 5); put16(&mut b, 0x12, 1);
    put16(&mut b, 0x14, 0x38); put16(&mut b, 0x16, flags);
    put32(&mut b, 0x18, 512); put32(&mut b, 0x1C, 1024);
    put16(&mut b, 0x28, 7); put32(&mut b, 0x2C, 42);
    put16(&mut b, 0x30, usn); put16(&mut b, 0x32, fx0); put16(&mut b, 0x34, fx1);
    put16(&mut b, 0x1FE, usn); put16(&mut b, 0x3FE, usn);
    b
}

#[test]
fn parses_valid_header_fields() {
    let e = parse_mft_entry(&build_valid_mft_entry(FLAG_IN_USE, 0x1234, 0xAABB, 0xCCDD)).unwrap();
    assert_eq!((e.header.usa_offset, e.header.usa_size), (0x30, 3));
    assert_eq!(e.header.lsn, 0xDEAD_BEEF_CAFE_BABE);
    assert_eq!((e.header.sequence_number, e.header.hard_link_count), (5, 1));
    assert_eq!(e.header.first_attribute_offset, 0x38);
    assert_eq!((e.header.used_size, e.header.allocated_size), (512, 1024));
    assert_eq!(e.header.next_attribute_id, 7);
    assert_eq!(e.header.mft_record_number, Some(42));
    assert!(e.header.is_base_record());
}

#[test]
fn baad_signature_is_bad_entry() {
    let mut buf = build_valid_mft_entry(FLAG_IN_USE, 0x1234, 0, 0);
    buf[0..4].copy_from_slice(b"BAAD");
    assert_eq!(parse_mft_entry(&buf).unwrap_err(), MftError::BadEntry);
}

#[test]
fn invalid_magic_rejected() {
    let mut buf = build_valid_mft_entry(FLAG_IN_USE, 0x1234, 0, 0);
    buf[0..4].copy_from_slice(b"XXXX");
    assert!(matches!(parse_mft_entry(&buf).unwrap_err(), MftError::InvalidMagic { .. }));
}
#[test]
fn flags_in_use_deleted_directory() {
    let iu = parse_mft_entry(&build_valid_mft_entry(FLAG_IN_USE, 0x1234, 0, 0)).unwrap();
    assert!(iu.header.is_in_use() && !iu.header.is_deleted() && !iu.header.is_directory());
    let d = parse_mft_entry(&build_valid_mft_entry(0, 0x1234, 0, 0)).unwrap();
    assert!(d.header.is_deleted() && !d.header.is_in_use());
    let dir = parse_mft_entry(&build_valid_mft_entry(FLAG_IN_USE | FLAG_DIR, 0x1234, 0, 0)).unwrap();
    assert!(dir.header.is_in_use() && dir.header.is_directory());
}
#[test]
fn fixup_applied_restores_sector_tails() {
    let e = parse_mft_entry(&build_valid_mft_entry(FLAG_IN_USE, 0x1234, 0xAABB, 0xCCDD)).unwrap();
    assert_eq!(&e.data[0x1FE..0x200], &0xAABBu16.to_le_bytes());
    assert_eq!(&e.data[0x3FE..0x400], &0xCCDDu16.to_le_bytes());
}
#[test]
fn fixup_mismatch_detected() {
    let mut buf = build_valid_mft_entry(FLAG_IN_USE, 0x1234, 0xAABB, 0xCCDD);
    buf[0x3FE..0x400].copy_from_slice(&0x9999u16.to_le_bytes());
    // Chunk 12 リファクタ後: `MftError::Fixup(FixupError::FixupMismatch { .. })` で伝播。
    assert!(matches!(
        parse_mft_entry(&buf).unwrap_err(),
        MftError::Fixup(FixupError::FixupMismatch { sector: 1, expected: 0x1234, got: 0x9999 })
    ));
}
#[test]
fn used_exceeds_allocated_rejected() {
    let mut buf = build_valid_mft_entry(FLAG_IN_USE, 0x1234, 0xAABB, 0xCCDD);
    buf[0x18..0x1C].copy_from_slice(&2048u32.to_le_bytes());
    assert!(matches!(parse_mft_entry(&buf).unwrap_err(),
        MftError::UsedExceedsAllocated { used: 2048, allocated: 1024 }));
}
#[test]
fn mft_buffer_too_small_rejected() {
    assert!(matches!(parse_mft_entry(&[0u8; 10]).unwrap_err(),
        MftError::BufferTooSmall { got: 10, need: 48 }));
}

#[test]
fn book_example_signature_0x0058_applies_fixup() {
    // Carrier Ch.13 例: USN=0x0058, USA size=3, record=1024, sector=512, fixup=0x0000 x2。
    let e = parse_mft_entry(&build_valid_mft_entry(FLAG_IN_USE, 0x0058, 0x0000, 0x0000)).unwrap();
    assert_eq!(&e.data[0x1FE..0x200], &[0x00, 0x00]);
    assert_eq!(&e.data[0x3FE..0x400], &[0x00, 0x00]);
    assert_eq!(e.header.usa_size, 3);
}
#[test]
fn usa_size_mismatch_with_record_size_rejected() {
    // allocated_size=1024 なら正しい usa_size は 3。10 は破損疑い → InvalidUsaSize。
    let mut buf = build_valid_mft_entry(FLAG_IN_USE, 0x1234, 0, 0);
    buf[0x06..0x08].copy_from_slice(&10u16.to_le_bytes());
    assert!(matches!(parse_mft_entry(&buf).unwrap_err(), MftError::InvalidUsaSize { size: 10 }));
}
#[test]
fn parses_2kb_entry_with_four_fixups() {
    // 2KB エントリ: allocated_size=2048, usa_size=5（USN + 4 fixup）。
    let (usn, fx): (u16, [u16; 4]) = (0xBEEF, [0x1111, 0x2222, 0x3333, 0x4444]);
    let mut b = vec![0u8; 2048];
    b[0..4].copy_from_slice(b"FILE");
    b[0x04..0x08].copy_from_slice(&[0x30, 0, 5, 0]); // usa_offset=0x30, usa_size=5
    b[0x14..0x18].copy_from_slice(&[0x40, 0, FLAG_IN_USE as u8, 0]); // first_attr=0x40, flags=in_use
    b[0x18..0x1C].copy_from_slice(&1024u32.to_le_bytes());
    b[0x1C..0x20].copy_from_slice(&2048u32.to_le_bytes());
    b[0x30..0x32].copy_from_slice(&usn.to_le_bytes());
    for (i, v) in fx.iter().enumerate() {
        b[0x32 + i * 2..0x34 + i * 2].copy_from_slice(&v.to_le_bytes());
        let pos = 512 * (i + 1) - 2;
        b[pos..pos + 2].copy_from_slice(&usn.to_le_bytes());
    }
    let e = parse_mft_entry(&b).unwrap();
    for (i, v) in fx.iter().enumerate() {
        let pos = 512 * (i + 1) - 2;
        assert_eq!(&e.data[pos..pos + 2], &v.to_le_bytes(), "sector {i}");
    }
    assert_eq!(e.header.allocated_size, 2048);
}
#[test]
fn usn_zero_is_accepted() {
    // USN=0 は未割り当てエントリで普通に起こる。全セクタ末尾も 0 なら正常に fixup される。
    let e = parse_mft_entry(&build_valid_mft_entry(FLAG_IN_USE, 0x0000, 0xAABB, 0xCCDD)).unwrap();
    assert_eq!(&e.data[0x1FE..0x200], &0xAABBu16.to_le_bytes());
    assert_eq!(&e.data[0x3FE..0x400], &0xCCDDu16.to_le_bytes());
}
#[test]
fn partial_corruption_detected_at_second_sector() {
    // sector 0 は USN 一致、sector 1 のみ別値 → sector=1 で FixupMismatch（Fixup 経由）。
    let mut buf = build_valid_mft_entry(FLAG_IN_USE, 0x1234, 0xAABB, 0xCCDD);
    assert_eq!(&buf[0x1FE..0x200], &0x1234u16.to_le_bytes());
    buf[0x3FE..0x400].copy_from_slice(&0xDEADu16.to_le_bytes());
    assert!(matches!(
        parse_mft_entry(&buf).unwrap_err(),
        MftError::Fixup(FixupError::FixupMismatch { sector: 1, expected: 0x1234, got: 0xDEAD })
    ));
}
