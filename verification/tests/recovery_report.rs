use dds_workbench::recovery::report::{RecoveredEntry, RecoveryReport};
use dds_workbench::recovery::validation::{ValidationResult, ValidationStatus};
use dds_workbench::time::UtcTime;
use std::path::PathBuf;

fn valid(format: &str, validator: &str, diagnostics: Vec<String>, user: &str, note: Option<&str>) -> ValidationResult {
    ValidationResult {
        status: ValidationStatus::Valid,
        format_detected: Some(format.to_string()),
        validator_name: validator.to_string(),
        user_message_ja: Some(user.to_string()),
        internal_note_ja: note.map(|s| s.to_string()),
        diagnostics,
        uncertain_label: None,
    }
}

fn invalid(format: &str, validator: &str, diag: &str, user: &str, note: &str) -> ValidationResult {
    ValidationResult {
        status: ValidationStatus::Invalid,
        format_detected: Some(format.to_string()),
        validator_name: validator.to_string(),
        user_message_ja: Some(user.to_string()),
        internal_note_ja: Some(note.to_string()),
        diagnostics: vec![diag.to_string()],
        uncertain_label: None,
    }
}

fn uncertain(diag: &str, user: &str, note: &str) -> ValidationResult {
    ValidationResult {
        status: ValidationStatus::Uncertain,
        format_detected: None,
        validator_name: String::new(),
        user_message_ja: Some(user.to_string()),
        internal_note_ja: Some(note.to_string()),
        diagnostics: vec![diag.to_string()],
        uncertain_label: Some("対応 Validator なし".to_string()),
    }
}

fn build_recovered(bytes: u64) -> RecoveredEntry {
    RecoveredEntry {
        source_id: format!("NTFS#{}", bytes),
        original_path: String::new(),
        output_path: PathBuf::new(),
        bytes_written: bytes,
        priority_score: 50,
        is_deleted: false,
        sha256: None,
        validation: None,
        matched_wish_labels: Vec::new(),
        is_priority: false,
    }
}

fn build_report(recovered: Vec<RecoveredEntry>, total_matched: usize) -> RecoveryReport {
    let now = UtcTime::from_timestamp(1_700_000_000, 0).unwrap();
    RecoveryReport {
        started_at: now,
        finished_at: now,
        total_matched,
        recovered,
        failed: Vec::new(),
        skipped: Vec::new(),
        wish_labels: Vec::new(),
    }
}

#[test]
fn total_bytes_written_sums_all_recovered() {
    let report = build_report(
        vec![build_recovered(100), build_recovered(200), build_recovered(300)],
        3,
    );
    assert_eq!(report.total_bytes_written(), 600);
}

#[test]
fn validation_counts_classify_by_status() {
    let mut valid_entry = build_recovered(10);
    valid_entry.validation = Some(valid("PNG", "png_v1", vec!["magic OK".into()], "PNG 画像として正常です", None));
    let mut invalid_entry = build_recovered(20);
    invalid_entry.validation = Some(invalid(
        "PNG",
        "png_v1",
        "bad header",
        "PNG ヘッダーが壊れています",
        "IHDR 破損のため再復旧推奨",
    ));
    let mut uncertain_entry = build_recovered(30);
    uncertain_entry.validation = Some(uncertain("no validator", "自動検証の対象外です", "CS で確認"));
    let none_entry = build_recovered(40);

    let report = build_report(vec![valid_entry, invalid_entry, uncertain_entry, none_entry], 4);
    assert_eq!(report.validated_count(), 1);
    assert_eq!(report.invalid_count(), 1);
    assert_eq!(report.uncertain_count(), 2);
}

#[test]
fn format_breakdown_groups_by_format() {
    let mut entries = Vec::new();
    for _ in 0..3 {
        let mut e = build_recovered(0);
        e.validation = Some(valid("PNG", "png_v1", vec![], "ok", None));
        entries.push(e);
    }
    let mut bad_png = build_recovered(0);
    bad_png.validation = Some(invalid("PNG", "png_v1", "x", "壊れ", "メモ"));
    entries.push(bad_png);
    for _ in 0..2 {
        let mut e = build_recovered(0);
        e.validation = Some(valid("JPEG", "jpg_v1", vec![], "ok", None));
        entries.push(e);
    }
    let report = build_report(entries, 6);
    let bd = report.format_breakdown();
    let png = &bd.iter().find(|(k, _)| k == "PNG").expect("PNG present").1;
    assert_eq!(png.valid, 3);
    assert_eq!(png.invalid, 1);
    assert_eq!(png.total, 4);
    let jpeg = &bd.iter().find(|(k, _)| k == "JPEG").expect("JPEG present").1;
    assert_eq!(jpeg.valid, 2);
    assert_eq!(jpeg.total, 2);
    let keys: Vec<&str> = bd.iter().map(|(k, _)| k.as_str()).collect();
    assert_eq!(keys, vec!["JPEG", "PNG"]);
}

#[test]
fn priority_count_only_counts_marked_entries() {
    let mut entries = Vec::new();
    for i in 0..5 {
        let mut e = build_recovered(i as u64);
        e.is_priority = i < 2;
        entries.push(e);
    }
    let report = build_report(entries, 5);
    assert_eq!(report.priority_count(), 2);
    assert_eq!(report.recovered.len(), 5);
}

#[test]
fn priority_counts_ignore_non_priority_entries() {
    let mut entries = Vec::new();
    let v_ok = valid("PNG", "png_v1", vec![], "ok", None);
    let v_ng = invalid("PNG", "png_v1", "x", "壊れ", "メモ");
    for _ in 0..3 {
        let mut e = build_recovered(0);
        e.is_priority = true;
        e.validation = Some(v_ok.clone());
        entries.push(e);
    }
    let mut bad = build_recovered(0);
    bad.is_priority = true;
    bad.validation = Some(v_ng.clone());
    entries.push(bad);
    for _ in 0..5 {
        let mut e = build_recovered(0);
        e.is_priority = false;
        e.validation = Some(v_ng.clone());
        entries.push(e);
    }
    let report = build_report(entries, 9);
    assert_eq!(report.priority_count(), 4);
    assert_eq!(report.priority_validated_count(), 3);
    assert_eq!(report.priority_invalid_count(), 1);
    assert_eq!(report.validated_count(), 3);
    assert_eq!(report.invalid_count(), 6);
}

#[test]
fn report_can_compute_both_overall_and_priority_stats() {
    let mut entries = Vec::new();
    let v_ok = valid("PNG", "png_v1", vec![], "ok", None);
    for _ in 0..2 {
        let mut e = build_recovered(100);
        e.is_priority = true;
        e.validation = Some(v_ok.clone());
        entries.push(e);
    }
    for _ in 0..3 {
        let mut e = build_recovered(50);
        e.is_priority = false;
        e.validation = Some(v_ok.clone());
        entries.push(e);
    }
    let report = build_report(entries, 5);
    assert_eq!(report.recovered.len(), 5);
    assert_eq!(report.validated_count(), 5);
    assert_eq!(report.total_bytes_written(), 100 * 2 + 50 * 3);
    assert_eq!(report.priority_count(), 2);
    assert_eq!(report.priority_validated_count(), 2);
    assert_eq!(report.priority_invalid_count(), 0);
    assert_eq!(report.priority_uncertain_count(), 0);
    assert_eq!(report.priority_total_bytes(), 200);
}

#[test]
fn invalid_grouped_by_reason_separates_distinct_reasons() {
    let mut tail_missing = build_recovered(0);
    tail_missing.validation = Some(invalid(
        "PNG",
        "png_v1",
        "trailer missing",
        "PNG 画像の末尾が欠けています",
        "IEND チャンク欠損",
    ));
    let mut wrong_ext = build_recovered(0);
    wrong_ext.validation = Some(invalid(
        "PNG",
        "png_v1",
        "magic mismatch",
        "PNG 拡張子ですが内容が違います",
        "拡張子嘘の典型例",
    ));
    let report = build_report(vec![tail_missing, wrong_ext], 2);
    let grouped = report.invalid_grouped_by_reason();
    assert_eq!(grouped.len(), 2, "different reasons -> distinct groups");
}

#[test]
fn counts_partition_the_recovered_files() {
    let mut a = build_recovered(1);
    a.validation = Some(valid("PNG", "png_v1", vec![], "ok", None));
    let mut b = build_recovered(2);
    b.validation = Some(invalid("PNG", "png_v1", "x", "壊れ", "メモ"));
    let c = build_recovered(3);
    let report = build_report(vec![a, b, c], 3);
    assert_eq!(
        report.validated_count() + report.invalid_count() + report.uncertain_count(),
        report.recovered.len()
    );
}

#[test]
fn duration_is_the_millisecond_difference() {
    let mut report = build_report(vec![], 0);
    report.started_at = UtcTime::from_timestamp(100, 0).unwrap();
    report.finished_at = UtcTime::from_timestamp(102, 500_000_000).unwrap();
    assert_eq!(report.duration_ms(), 2500);
}

#[test]
fn duration_rounds_partial_milliseconds_toward_zero() {
    let mut report = build_report(vec![], 0);
    report.started_at = UtcTime::from_timestamp(100, 999_999).unwrap();
    report.finished_at = UtcTime::from_timestamp(165, 250_000_000).unwrap();
    assert_eq!(report.duration_ms(), 65_249);
    std::mem::swap(&mut report.started_at, &mut report.finished_at);
    assert_eq!(report.duration_ms(), -65_249);
}
