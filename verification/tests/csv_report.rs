use dds_workbench::recovery::report::{RecoveredEntry, RecoveryReport};
use dds_workbench::recovery::validation::{ValidationResult, ValidationStatus};
use dds_workbench::report::csv::{join_strings, render_csv};
use dds_workbench::time::UtcTime;
use std::path::PathBuf;

const CSV_HEADER: &[&str; 15] = &[
    "source_id",
    "original_path",
    "output_path",
    "bytes_written",
    "is_deleted",
    "is_priority",
    "priority_score",
    "matched_wishes",
    "sha256",
    "validation_status",
    "format_detected",
    "validator_name",
    "customer_message",
    "internal_note",
    "diagnostics",
];

fn invalid_result(format: &str, validator: &str, diag: &str, user: &str, note: &str) -> ValidationResult {
    ValidationResult {
        status: ValidationStatus::Invalid,
        format_detected: Some(format.to_string()),
        validator_name: validator.to_string(),
        user_message_ja: Some(user.to_string()),
        internal_note_ja: Some(note.to_string()),
        diagnostics: vec![diag.to_string()],
        uncertain_label: None,
    }
}

fn valid_result(format: &str, validator: &str, user: &str) -> ValidationResult {
    ValidationResult {
        status: ValidationStatus::Valid,
        format_detected: Some(format.to_string()),
        validator_name: validator.to_string(),
        user_message_ja: Some(user.to_string()),
        internal_note_ja: None,
        diagnostics: vec![],
        uncertain_label: None,
    }
}

fn build_report(entries: Vec<RecoveredEntry>) -> RecoveryReport {
    let now = UtcTime::from_timestamp(1_700_000_000, 0).unwrap();
    RecoveryReport {
        started_at: now,
        finished_at: now,
        total_matched: entries.len(),
        recovered: entries,
        failed: vec![],
        skipped: vec![],
        wish_labels: vec![],
    }
}

fn entry(path: &str, validation: Option<ValidationResult>) -> RecoveredEntry {
    RecoveredEntry {
        source_id: "NTFS#7".into(),
        original_path: path.into(),
        output_path: PathBuf::from("/out/x"),
        bytes_written: 50,
        priority_score: 30,
        is_deleted: false,
        sha256: Some("ff".repeat(32)),
        validation,
        matched_wish_labels: Vec::new(),
        is_priority: false,
    }
}

#[test]
fn csv_has_all_15_fields_in_header() {
    // 15 列ヘッダー（Chunk 23.7 で is_priority 列を追加）。
    let csv = render_csv(&build_report(vec![])).unwrap();
    let first_line = csv.lines().next().unwrap();
    let cols: Vec<_> = first_line.split(',').collect();
    assert_eq!(cols.len(), 15, "ヘッダーは 15 列: {:?}", cols);
    for col in CSV_HEADER {
        assert!(first_line.contains(col), "{} が含まれるべき", col);
    }
    // 専用カラム
    assert!(first_line.contains("is_priority"));
    assert!(first_line.contains("matched_wishes"));
    assert!(first_line.contains("internal_note"));
    assert!(first_line.contains("customer_message"));
}

#[test]
fn csv_handles_commas_and_quotes_in_paths() {
    let validation = valid_result("PNG", "png_v1", "OK");
    let report = build_report(vec![entry(
        "\\dir,with,comma\\and\"quote.png",
        Some(validation),
    )]);
    let csv = render_csv(&report).unwrap();
    assert!(
        csv.contains("\"\\dir,with,comma\\and\"\"quote.png\""),
        "csv crate がカンマとクオートを正しくエスケープすること: {}",
        csv
    );
}

#[test]
fn csv_writes_internal_note_in_dedicated_column() {
    let validation = invalid_result(
        "PNG",
        "png_v1",
        "magic mismatch",
        "顧客向け文言",
        "内部メモ:再復旧推奨",
    );
    let report = build_report(vec![entry("\\bad.png", Some(validation))]);
    let csv = render_csv(&report).unwrap();
    assert!(csv.contains("顧客向け文言"));
    assert!(csv.contains("内部メモ:再復旧推奨"));
    let mut rdr = csv::Reader::from_reader(csv.as_bytes());
    let record = rdr
        .records()
        .next()
        .expect("少なくとも 1 レコード")
        .unwrap();
    assert_eq!(record.len(), 15);
    // Chunk 23.7 で is_priority 列が index 5 に挿入されたため、各 index が +1 シフト。
    // matched_wishes (index 7), sha256 (index 8), customer_message (index 12), internal_note (index 13)
    assert_eq!(record.get(5), Some("false")); // is_priority
    assert_eq!(record.get(7), Some("")); // matched_wishes
    assert_eq!(record.get(12), Some("顧客向け文言"));
    assert_eq!(record.get(13), Some("内部メモ:再復旧推奨"));
}

#[test]
fn csv_emits_matched_wishes_column() {
    // Chunk 20.5 追加: matched_wish_labels が "; " 区切りで matched_wishes 列に出ること。
    // Chunk 23.7 で is_priority 列追加に伴い matched_wishes は index 7 に移動。
    let validation = valid_result("PNG", "png_v1", "OK");
    let mut e = entry("\\img\\a.png", Some(validation));
    e.matched_wish_labels = vec!["写真".into(), "重要書類".into()];
    e.is_priority = true;
    let csv = render_csv(&build_report(vec![e])).unwrap();
    let mut rdr = csv::Reader::from_reader(csv.as_bytes());
    let record = rdr.records().next().unwrap().unwrap();
    assert_eq!(record.get(5), Some("true")); // is_priority
    assert_eq!(record.get(7), Some("写真; 重要書類"));
}

#[test]
fn csv_is_priority_column_default_false() {
    // Chunk 23.7: 通常エントリ（is_priority=false）が "false" として出力されること。
    let validation = valid_result("PNG", "png_v1", "OK");
    let e = entry("\\img\\a.png", Some(validation));
    let csv = render_csv(&build_report(vec![e])).unwrap();
    let mut rdr = csv::Reader::from_reader(csv.as_bytes());
    let record = rdr.records().next().unwrap().unwrap();
    assert_eq!(record.get(5), Some("false"));
}

#[test]
fn csv_row_has_every_field_in_order() {
    let mut v = invalid_result("PNG", "png_v1", "d1", "顧客向け", "メモ");
    v.diagnostics.push("d2".to_string());
    let mut e = entry("\\a.png", Some(v));
    e.bytes_written = 1234;
    e.is_deleted = true;
    e.priority_score = 7;
    let csv = render_csv(&build_report(vec![e])).unwrap();
    let mut rdr = csv::Reader::from_reader(csv.as_bytes());
    let record = rdr.records().next().unwrap().unwrap();
    let fields: Vec<&str> = record.iter().collect();
    assert_eq!(
        fields,
        vec![
            "NTFS#7", "\\a.png", "/out/x", "1234", "true", "false", "7", "", &"ff".repeat(32),
            "invalid", "PNG", "png_v1", "顧客向け", "メモ", "d1; d2",
        ]
    );
}

#[test]
fn csv_row_without_validation_leaves_validation_fields_empty() {
    let mut e = entry("\\b.bin", None);
    e.sha256 = None;
    let csv = render_csv(&build_report(vec![e])).unwrap();
    let mut rdr = csv::Reader::from_reader(csv.as_bytes());
    let record = rdr.records().next().unwrap().unwrap();
    for i in 8..15 {
        assert_eq!(record.get(i), Some(""), "field {}", i);
    }
}

#[test]
fn join_strings_separates_with_the_separator() {
    assert_eq!(join_strings(&vec![], "; "), "");
    assert_eq!(join_strings(&vec!["a".to_string()], "; "), "a");
    assert_eq!(join_strings(&vec!["a".to_string(), "b".to_string(), "c".to_string()], "、"), "a、b、c");
}

#[test]
fn csv_text_is_header_then_one_line_per_file() {
    let mut e = entry("\\a\nb.txt", None);
    e.sha256 = None;
    e.matched_wish_labels = vec!["写真".into(), "a,b".into()];
    let csv = render_csv(&build_report(vec![e])).unwrap();
    let mut expected = CSV_HEADER.join(",");
    expected.push('\n');
    expected.push_str("NTFS#7,\"\\a\nb.txt\",/out/x,50,false,false,30,\"写真; a,b\",,,,,,,\n");
    assert_eq!(csv, expected);
}

#[test]
fn csv_of_an_empty_report_is_the_header_line() {
    let csv = render_csv(&build_report(vec![])).unwrap();
    assert_eq!(csv, format!("{}\n", CSV_HEADER.join(",")));
}

#[test]
fn csv_reader_gets_the_fields_back() {
    let mut e = entry("\\dir,x\\\"q\"\r\nname.png", Some(valid_result("PNG", "png_v1", "改行\nあり")));
    e.matched_wish_labels = vec!["a,b".into(), "\"c\"".into()];
    let report = build_report(vec![e.clone(), entry("\\plain.txt", None)]);
    let csv = render_csv(&report).unwrap();
    let mut rdr = csv::ReaderBuilder::new().has_headers(false).from_reader(csv.as_bytes());
    let records: Vec<Vec<String>> = rdr
        .records()
        .map(|r| r.unwrap().iter().map(|f| f.to_string()).collect())
        .collect();
    assert_eq!(records.len(), 3);
    assert_eq!(records[0], CSV_HEADER.iter().map(|s| s.to_string()).collect::<Vec<_>>());
    assert_eq!(records[1].len(), 15);
    assert_eq!(records[1][1], e.original_path);
    assert_eq!(records[1][7], "a,b; \"c\"");
    assert_eq!(records[1][12], "改行\nあり");
    assert_eq!(records[2][1], "\\plain.txt");
}
