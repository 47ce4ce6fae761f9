use dds_workbench::attributes::index::{parse_entries_in_node, parse_index_root, parse_indx_block, IndexError, ENTRY_HDR, FN_TYPE, F_CHILD, F_LAST, INDX_HDR, INDX_PREFIX, MAGIC, NODE_HDR, STD_HDR};
use dds_workbench::fixup::FixupError;
fn put16(b: &mut [u8], o: usize, v: u16) { b[o..o + 2].copy_from_slice(&v.to_le_bytes()); }
fn put32(b: &mut [u8], o: usize, v: u32) { b[o..o + 4].copy_from_slice(&v.to_le_bytes()); }
fn fn_content(name: &str) -> Vec<u8> {
    let utf16: Vec<u16> = name.encode_utf16().collect();
    let mut b = vec![0u8; 0x42 + utf16.len() * 2];
    b[0..8].copy_from_slice(&(5u64 | (1u64 << 48)).to_le_bytes()); // parent=5
    b[0x40] = utf16.len() as u8; b[0x41] = 1; // Win32
    for (i, u) in utf16.iter().enumerate() {
        b[0x42 + i * 2..0x44 + i * 2].copy_from_slice(&u.to_le_bytes());
    } b
}
fn build_entries(items: &[(u64, &str)]) -> Vec<u8> {
    let mut buf = Vec::new();
    for &(no, name) in items {
        let fnc = fn_content(name);
        let elen = ((ENTRY_HDR + fnc.len() + 7) & !7) as u16;
        let mut e = vec![0u8; elen as usize];
        e[0..8].copy_from_slice(&(no | (1u64 << 48)).to_le_bytes());
        put16(&mut e, 8, elen); put16(&mut e, 10, fnc.len() as u16);
        e[ENTRY_HDR..ENTRY_HDR + fnc.len()].copy_from_slice(&fnc);
        buf.extend_from_slice(&e);
    }
    let mut t = vec![0u8; 16]; put16(&mut t, 8, 16);
    put32(&mut t, 12, F_LAST); buf.extend_from_slice(&t); buf
}
fn build_index_root(items: &[(u64, &str)]) -> Vec<u8> {
    let entries = build_entries(items);
    let mut buf = vec![0u8; STD_HDR + NODE_HDR + entries.len()];
    put32(&mut buf, 0, FN_TYPE); put32(&mut buf, 8, 4096); buf[12] = 1;
    let eo = (NODE_HDR + entries.len()) as u32;
    put32(&mut buf, STD_HDR, 16);
    put32(&mut buf, STD_HDR + 4, eo); put32(&mut buf, STD_HDR + 8, eo);
    buf[STD_HDR + NODE_HDR..].copy_from_slice(&entries); buf
}
// 4096 B INDX ブロック合成。USA をエントリ列の後ろに配置（8 セクタ）。
fn build_indx(vcn: u64, items: &[(u64, &str)]) -> Vec<u8> {
    const USN: u16 = 0x55AA;
    let entries = build_entries(items);
    let mut buf = vec![0u8; 4096];
    buf[0..4].copy_from_slice(&MAGIC);
    put16(&mut buf, 6, 9); // usa_size = USN + 8 fixup
    buf[0x10..0x18].copy_from_slice(&vcn.to_le_bytes());
    let eo = (NODE_HDR + entries.len()) as u32;
    put32(&mut buf, INDX_HDR, 16);
    put32(&mut buf, INDX_HDR + 4, eo); put32(&mut buf, INDX_HDR + 8, eo);
    buf[INDX_PREFIX..INDX_PREFIX + entries.len()].copy_from_slice(&entries);
    let usa_off = (INDX_PREFIX + entries.len()).next_multiple_of(8);
    put16(&mut buf, 4, usa_off as u16);
    put16(&mut buf, usa_off, USN);
    for i in 0..8 {
        put16(&mut buf, usa_off + 2 + i * 2, 0xBB00 | (i as u16));
        put16(&mut buf, 512 * (i + 1) - 2, USN);
    } buf
}

#[test] fn parse_index_root_minimal_valid_directory() {
    let buf = build_index_root(&[(64, "a.txt"), (65, "b.txt")]);
    let ir = parse_index_root(&buf).expect("ok");
    assert_eq!((ir.index_type, ir.bytes_per_index_record), (0x30, 4096));
    assert!(!ir.node_header.has_children());
    let entries = parse_entries_in_node(ir.node_body).expect("ok");
    assert_eq!(entries.len(), 3);
    assert!(entries.last().unwrap().is_last() && entries.last().unwrap().file_name.is_none());
}
#[test] fn parse_index_root_rejects_non_filename_type() {
    let mut buf = build_index_root(&[(64, "x")]);
    put32(&mut buf, 0, 0x90);
    assert!(matches!(parse_index_root(&buf).unwrap_err(),
        IndexError::UnsupportedIndexType { got: 0x90 }));
}
#[test] fn parse_index_root_buffer_too_small() {
    assert!(matches!(parse_index_root(&[0u8; 31]).unwrap_err(),
        IndexError::BufferTooSmall { got: 31, need: 32 }));
}
#[test] fn parse_indx_block_with_valid_magic_and_fixup() {
    let blk = build_indx(2, &[(64, "p.txt"), (65, "q.txt")]);
    let ib = parse_indx_block(&blk, 512).expect("ok");
    assert_eq!(ib.vcn, 2);
    let last = ib.data.len() - 2;
    assert_eq!(&ib.data[last..], &0xBB07u16.to_le_bytes());
    let entries = parse_entries_in_node(ib.node_body()).expect("ok");
    assert!(entries.last().unwrap().is_last());
}
#[test] fn parse_indx_block_rejects_invalid_magic() {
    let mut blk = build_indx(0, &[(64, "x")]);
    blk[0..4].copy_from_slice(b"XXXX");
    assert!(matches!(parse_indx_block(&blk, 512).unwrap_err(),
        IndexError::InvalidIndxMagic { got: b } if &b == b"XXXX"));
}
#[test] fn parse_indx_block_fixup_mismatch_propagates() {
    let mut blk = build_indx(0, &[(64, "x")]);
    let last = blk.len() - 2;
    blk[last..].copy_from_slice(&0xDEADu16.to_le_bytes());
    assert!(matches!(parse_indx_block(&blk, 512).unwrap_err(),
        IndexError::Fixup(FixupError::FixupMismatch { sector: 7, .. })));
}
#[test] fn parse_entries_single_terminal_entry() {
    let mut t = vec![0u8; 16]; put16(&mut t, 8, 16); put32(&mut t, 12, F_LAST);
    let entries = parse_entries_in_node(&t).expect("ok");
    assert_eq!(entries.len(), 1);
    assert!(entries[0].is_last() && entries[0].file_name.is_none());
}
#[test] fn parse_entries_multiple_with_filenames() {
    let buf = build_entries(&[(10, "a.txt"), (11, "b.txt"), (12, "c.txt")]);
    let entries = parse_entries_in_node(&buf).expect("ok");
    assert_eq!(entries.len(), 4);
    let names: Vec<_> = entries.iter()
        .filter_map(|e| e.file_name.as_ref().map(|f| f.filename.as_str())).collect();
    assert_eq!(names, vec!["a.txt", "b.txt", "c.txt"]);
    assert_eq!(entries[0].child_ref.entry_number, 10);
}
#[test] fn parse_entries_zero_length_returns_error() {
    assert!(matches!(parse_entries_in_node(&[0u8; 16]).unwrap_err(),
        IndexError::EntryLengthZero));
}
#[test] fn parse_entries_length_exceeds_buffer_returns_error() {
    let mut buf = vec![0u8; 16]; put16(&mut buf, 8, 64);
    assert!(matches!(parse_entries_in_node(&buf).unwrap_err(),
        IndexError::EntryLengthExceedsBuffer { length: 64, .. }));
}
#[test] fn parse_entries_with_child_node_vcn_extracted() {
    let fnc = fn_content("x");
    let elen = (ENTRY_HDR + fnc.len() + 8).next_multiple_of(8) as u16;
    let mut e = vec![0u8; elen as usize];
    e[0..8].copy_from_slice(&(100u64 | (1u64 << 48)).to_le_bytes());
    put16(&mut e, 8, elen); put16(&mut e, 10, fnc.len() as u16);
    put32(&mut e, 12, F_CHILD);
    e[ENTRY_HDR..ENTRY_HDR + fnc.len()].copy_from_slice(&fnc);
    let voff = elen as usize - 8;
    e[voff..voff + 8].copy_from_slice(&0x42u64.to_le_bytes());
    let mut t = vec![0u8; 16]; put16(&mut t, 8, 16); put32(&mut t, 12, F_LAST);
    e.extend_from_slice(&t);
    let entries = parse_entries_in_node(&e).expect("ok");
    assert_eq!(entries.len(), 2);
    assert!(entries[0].has_child_node() && entries[0].child_vcn == Some(0x42));
}
