use dds_workbench::attributes::runlist::{parse_runlist, read_runs_with, Run, RunlistError};
// 書籍 Chapter 13 p.358-359 サンプル: `32 c0 1e b5 3a 05 21 70 1b 1f 00`
// 第1run: 0x32 → L=2,O=3 / len=0x1ec0=7872, offset=0x053ab5=342709
// 第2run: 0x21 → L=1,O=2 / len=0x70=112, delta=0x1f1b=+7963 → LCN=350672
#[test] fn book_chapter13_runlist_example_two_runs() {
    let b = [0x32, 0xc0, 0x1e, 0xb5, 0x3a, 0x05, 0x21, 0x70, 0x1b, 0x1f, 0x00];
    let r = parse_runlist(&b).unwrap();
    assert_eq!(r, vec![
        Run { length_clusters: 7872, lcn: Some(342_709) },
        Run { length_clusters: 112, lcn: Some(350_672) }]);
}
#[test] fn single_run_then_end_marker() {
    assert_eq!(parse_runlist(&[0x11, 0x05, 0x0A, 0x00]).unwrap(),
        vec![Run { length_clusters: 5, lcn: Some(10) }]);
}
#[test] fn empty_runlist_immediate_end() {
    assert_eq!(parse_runlist(&[0x00]).unwrap(), Vec::<Run>::new());
}
#[test] fn unterminated_runlist_returns_buffer_too_small() {
    assert!(matches!(parse_runlist(&[0x11, 0x05, 0x0A]),
        Err(RunlistError::BufferTooSmall { .. })));
}
#[test] fn sparse_run_offset_bytes_zero() {
    let r = parse_runlist(&[0x01, 0x05, 0x00]).unwrap();
    assert_eq!(r, vec![Run { length_clusters: 5, lcn: None }]);
    assert!(r[0].is_sparse());
}
#[test] fn sparse_mixed_with_normal_runs() {
    // 通常(len=3,lcn=10) → スパース(len=2) → 通常(len=4,delta=+5,lcn=15)
    let r = parse_runlist(&[0x11, 0x03, 0x0A, 0x01, 0x02, 0x11, 0x04, 0x05, 0x00]).unwrap();
    assert_eq!(r, vec![
        Run { length_clusters: 3, lcn: Some(10) },
        Run { length_clusters: 2, lcn: None },
        Run { length_clusters: 4, lcn: Some(15) }]);
}
#[test] fn sign_extension_negative_one_byte_offset() {
    // L=1,O=1,len=5,offset=0xFF → -1 → NegativeLcn
    assert!(matches!(parse_runlist(&[0x11, 0x05, 0xFF, 0x00]),
        Err(RunlistError::NegativeLcn { got: -1 })));
}
#[test] fn sign_extension_three_byte_offset_high_bit_set() {
    // 第1run: len=5,offset=100 → LCN=100
    // 第2run: L=1,O=3,len=2,offset=0xFFFFFF (=-1) → LCN=99（3 バイト符号拡張）
    let r = parse_runlist(&[0x11, 0x05, 0x64, 0x31, 0x02, 0xFF, 0xFF, 0xFF, 0x00]).unwrap();
    assert_eq!(r[1], Run { length_clusters: 2, lcn: Some(99) });
}
#[test] fn invalid_header_nibble_length_zero_with_data() {
    assert!(matches!(parse_runlist(&[0xF0, 0xAA]),
        Err(RunlistError::InvalidHeaderNibble { length_bytes: 0, offset_bytes: 15 })));
}
#[test] fn invalid_header_nibble_offset_over_eight() {
    assert!(matches!(parse_runlist(&[0x91, 0x05, 0xAA]),
        Err(RunlistError::InvalidHeaderNibble { length_bytes: 1, offset_bytes: 9 })));
}
#[test] fn length_field_truncated_returns_specific_error() {
    assert!(matches!(parse_runlist(&[0x14, 0xAA, 0xBB]),
        Err(RunlistError::LengthFieldTruncated { need: 4, got: 2 })));
}
#[test] fn negative_lcn_after_subtraction_returns_negative_lcn_error() {
    // 第1run: LCN=100、第2run: delta=-200 (LE: 0x38 0xFF) → LCN=-100
    assert!(matches!(parse_runlist(&[0x11, 0x05, 0x64, 0x21, 0x02, 0x38, 0xFF, 0x00]),
        Err(RunlistError::NegativeLcn { got: -100 })));
}
#[test] fn read_runs_with_mock_reader_assembles_continuous_data() {
    let r = vec![Run { length_clusters: 2, lcn: Some(10) },
                 Run { length_clusters: 2, lcn: Some(20) }];
    let out = read_runs_with(&r, 4, 16, |lcn, c| {
        Ok(vec![if lcn == 10 { 0xAA } else { 0xBB }; (c * 4) as usize])
    }).unwrap();
    assert_eq!(&out[..8], &[0xAA; 8]); assert_eq!(&out[8..], &[0xBB; 8]);
}
#[test] fn read_runs_with_sparse_run_fills_zeros() {
    let r = vec![Run { length_clusters: 1, lcn: Some(10) },
                 Run { length_clusters: 2, lcn: None },
                 Run { length_clusters: 1, lcn: Some(20) }];
    let out = read_runs_with(&r, 2, 8, |_, c| Ok(vec![0xCC; (c * 2) as usize])).unwrap();
    assert_eq!(out, vec![0xCC, 0xCC, 0, 0, 0, 0, 0xCC, 0xCC]);
}
#[test] fn read_runs_with_truncates_to_real_size() {
    let r = vec![Run { length_clusters: 2, lcn: Some(0) }];
    let out = read_runs_with(&r, 4, 5, |_, c| Ok(vec![0x77; (c * 4) as usize])).unwrap();
    assert_eq!(out, vec![0x77; 5]);
}
#[test] fn read_runs_with_cluster_size_zero_returns_invalid_cluster_size() {
    let r = vec![Run { length_clusters: 1, lcn: Some(0) }];
    assert!(matches!(read_runs_with(&r, 0, 4, |_, _| Ok(vec![])),
        Err(RunlistError::InvalidClusterSize { got: 0 })));
}
#[test] fn read_runs_with_failing_reader_reports_disk_read() {
    let r = vec![Run { length_clusters: 1, lcn: Some(3) }];
    let out = read_runs_with(&r, 4, 4, |_, _| Err(std::io::Error::new(std::io::ErrorKind::Other, "bad sector")));
    assert!(matches!(out, Err(RunlistError::DiskRead(_))));
}
