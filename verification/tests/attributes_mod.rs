use dds_workbench::attribute::AttributeType;
use dds_workbench::attributes::{find_attribute, AttributeIterator};
// 常駐属性 1 件 (length バイト)、type_id/length をリトルエンディアンで埋める。
fn resident(type_id: u32, length: u32) -> Vec<u8> {
    let mut b = vec![0u8; length as usize];
    b[0..4].copy_from_slice(&type_id.to_le_bytes());
    b[4..8].copy_from_slice(&length.to_le_bytes());
    b[0x0A..0x0C].copy_from_slice(&0x18u16.to_le_bytes());
    b[0x10..0x14].copy_from_slice(&(length - 0x18).to_le_bytes());
    b[0x14..0x16].copy_from_slice(&0x18u16.to_le_bytes()); b
}
fn entry(attrs: &[Vec<u8>]) -> Vec<u8> { // 属性連結 + End マーカー + パディング
    let mut d: Vec<u8> = attrs.iter().flatten().copied().collect();
    d.extend_from_slice(&0xFFFF_FFFFu32.to_le_bytes());
    d.resize(d.len() + 16, 0); d
}
#[test] fn iterator_empty_on_end_marker() {
    let d = entry(&[]); let mut it = AttributeIterator::new(&d, 0);
    assert!(it.next().is_none()); assert!(it.next().is_none());
}
#[test] fn iterator_yields_single_attribute_then_end() {
    let d = entry(&[resident(0x10, 0x60)]); let mut it = AttributeIterator::new(&d, 0);
    let a = it.next().expect("first").expect("ok");
    assert_eq!(a.header.attribute_type(), AttributeType::StandardInformation);
    assert_eq!((a.offset_in_entry, a.raw.len()), (0, 0x60));
    assert!(it.next().is_none());
}
#[test] fn iterator_yields_multiple_attributes() {
    let d = entry(&[resident(0x10, 0x60), resident(0x30, 0x70)]);
    let mut it = AttributeIterator::new(&d, 0);
    let mut types = Vec::new();
    while let Some(r) = it.next() {
        if let Ok(a) = r {
            types.push(a.header.attribute_type());
        }
    }
    assert_eq!(types, vec![AttributeType::StandardInformation, AttributeType::FileName]);
}
#[test] fn find_attribute_finds_existing_type() {
    let d = entry(&[resident(0x10, 0x60), resident(0x30, 0x70)]);
    let f = find_attribute(&d, 0, AttributeType::FileName).expect("found");
    assert_eq!((f.header.attribute_type(), f.offset_in_entry),
        (AttributeType::FileName, 0x60));
}
#[test] fn find_attribute_returns_none_for_missing_type() {
    let d = entry(&[resident(0x10, 0x60)]);
    assert!(find_attribute(&d, 0, AttributeType::Data).is_none());
}
