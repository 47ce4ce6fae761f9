use dds_workbench::recovery::report::{FailedEntry, FormatStats, RecoveredEntry, RecoveryReport, SkippedEntry};
use dds_workbench::recovery::validation::{ValidationResult, ValidationStatus};
use dds_workbench::report::html_internal::{render_internal_html_with, RateTexts, MAX_INVALID_PER_GROUP};
use dds_workbench::time::UtcTime;
use std::path::PathBuf;

fn invalid_result(format: &str, validator: &str, diag: &str, user: &str, note: &str) -> ValidationResult {
    ValidationResult {
        status: ValidationStatus::Invalid,
        format_detected: Some(format.to_string()),
        validator_name: validator.to_string(),
        user_message_ja: Some(user.to_string()),
        internal_note_ja: Some(note.to_string()),
        diagnostics: vec![diag.to_string()],
        uncertain_label: None,
    }
}

fn valid_result(format: &str, validator: &str, user: &str) -> ValidationResult {
    ValidationResult {
        status: ValidationStatus::Valid,
        format_detected: Some(format.to_string()),
        validator_name: validator.to_string(),
        user_message_ja: Some(user.to_string()),
        internal_note_ja: None,
        diagnostics: vec![],
        uncertain_label: None,
    }
}

fn entry(path: &str, validation: Option<ValidationResult>) -> RecoveredEntry {
    RecoveredEntry {
        source_id: "NTFS#1".into(),
        original_path: path.into(),
        output_path: PathBuf::from("/tmp/out"),
        bytes_written: 1234,
        priority_score: 100,
        is_deleted: false,
        sha256: Some("aa".repeat(32)),
        validation,
        matched_wish_labels: vec![],
        is_priority: false,
    }
}

fn make_report(recovered: Vec<RecoveredEntry>, total_matched: usize) -> RecoveryReport {
    let now = UtcTime::from_timestamp(1_700_000_000, 0).unwrap();
    RecoveryReport {
        started_at: now,
        finished_at: now,
        total_matched,
        recovered,
        failed: vec![],
        skipped: vec![],
        wish_labels: vec!["写真".into()],
    }
}

fn percent(num: usize, denom: usize) -> String {
    if denom == 0 {
        format!("{:.1}", 0.0f64)
    } else {
        format!("{:.1}", (num as f64) / (denom as f64) * 100.0)
    }
}

fn stats_ratio(stats: &FormatStats) -> String {
    percent(stats.valid, stats.total)
}

/// The percentages as the application computes them.
fn rates_of(report: &RecoveryReport) -> RateTexts {
    let n = report.recovered.len();
    RateTexts {
        recovery: percent(n, report.total_matched),
        valid: percent(report.validated_count(), n),
        invalid: percent(report.invalid_count(), n),
        uncertain: percent(report.uncertain_count(), n),
        quality: percent(report.validated_count(), n),
        priority_quality: percent(report.priority_validated_count(), report.priority_count()),
        format_valid: report.format_breakdown().iter().map(|(_, s)| stats_ratio(s)).collect(),
    }
}

fn render_internal_html(report: &RecoveryReport) -> Result<String, ()> {
    Ok(render_internal_html_with(report, "2024-05-06 07:08", "2024-05-06 07:08:09", &rates_of(report)))
}

#[test]
fn internal_html_warns_not_to_share_with_customer() {
    let html = render_internal_html(&make_report(vec![], 0)).unwrap();
    assert!(html.contains("お客様に共有しないでください"));
    assert!(html.contains("CS 内部"));
}

#[test]
fn internal_html_includes_internal_note_for_invalid() {
    let v = invalid_result(
        "PNG",
        "png_v1",
        "magic mismatch",
        "PNG ファイルではないようです",
        "拡張子嘘の典型例。再復旧推奨",
    );
    let html = render_internal_html(&make_report(vec![entry("\\bad.png", Some(v))], 1)).unwrap();
    assert!(html.contains("拡張子嘘の典型例"));
    assert!(html.contains("再復旧推奨"));
    assert!(html.contains("PNG ファイルではないようです"));
}

#[test]
fn internal_html_shows_recovery_success_rate() {
    let entries: Vec<_> = (0..7).map(|_| entry("\\x.png", None)).collect();
    let html = render_internal_html(&make_report(entries, 10)).unwrap();
    assert!(html.contains("70.0%"));
    assert!(html.contains("該当の"));
}

#[test]
fn internal_html_shows_quality_assurance_rate() {
    let v_ok = valid_result("PNG", "png_v1", "OK");
    let v_ng = invalid_result("PNG", "png_v1", "x", "壊れ", "メモ");
    let entries = vec![
        entry("\\a.png", Some(v_ok.clone())),
        entry("\\b.png", Some(v_ok)),
        entry("\\c.png", Some(v_ng.clone())),
        entry("\\d.png", Some(v_ng)),
    ];
    let html = render_internal_html(&make_report(entries, 4)).unwrap();
    assert!(html.contains("品質保証率"));
    assert!(html.contains("50.0%"));
}

#[test]
fn internal_html_groups_invalid_by_reason() {
    let v1 = invalid_result("PNG", "png_v1", "trailer", "末尾が欠けています", "IEND 欠損");
    let v2 = invalid_result("PNG", "png_v1", "magic", "PNG ではないようです", "拡張子嘘");
    let entries = vec![entry("\\a.png", Some(v1)), entry("\\b.png", Some(v2))];
    let html = render_internal_html(&make_report(entries, 2)).unwrap();
    let group_count = html.matches("class=\"invalid-group\"").count();
    assert_eq!(group_count, 2, "two distinct invalid-reason groups");
}

#[test]
fn internal_html_shows_priority_section_when_priority_present() {
    let v_ok = valid_result("PNG", "png_v1", "OK");
    let mut priority_entry = entry("\\photo.png", Some(v_ok));
    priority_entry.is_priority = true;
    let html = render_internal_html(&make_report(vec![priority_entry], 1)).unwrap();
    assert!(html.contains("お客様優先データ"));
    assert!(html.contains("Wishlist マッチ"));
    assert!(html.contains("復旧結果 (全体)"));
}

#[test]
fn internal_html_hides_priority_section_when_no_priority() {
    let entries = vec![entry("\\a.txt", None)];
    let html = render_internal_html(&make_report(entries, 1)).unwrap();
    assert!(!html.contains("お客様優先データ"));
}

#[test]
fn internal_html_caps_invalid_list_at_20_per_group() {
    let v = invalid_result("PNG", "png_v1", "magic", "PNG ではないようです", "拡張子嘘");
    let entries: Vec<_> = (0..25).map(|i| entry(&format!("\\x{}.png", i), Some(v.clone()))).collect();
    let html = render_internal_html(&make_report(entries, 25)).unwrap();
    assert!(html.contains("... 他 5 件"));
    assert_eq!(html.matches("<li>\\x").count(), MAX_INVALID_PER_GROUP);
    assert!(html.contains("\\x19.png"));
    assert!(!html.contains("\\x20.png"));
}

#[test]
fn internal_html_group_of_exactly_twenty_has_no_remainder_line() {
    let v = invalid_result("PNG", "png_v1", "magic", "PNG ではないようです", "拡張子嘘");
    let entries: Vec<_> = (0..20).map(|i| entry(&format!("\\y{}.png", i), Some(v.clone()))).collect();
    let html = render_internal_html(&make_report(entries, 20)).unwrap();
    assert!(!html.contains("... 他"));
    assert_eq!(html.matches("<li>\\y").count(), 20);
    assert!(html.contains("<h3>PNG - PNG ではないようです (20 件)</h3>"));
}

#[test]
fn internal_html_escapes_every_text_taken_from_the_report() {
    let v = invalid_result("P<N>G", "png_v1", "x", "a&b", "<script>");
    let mut report = make_report(vec![entry("\\<evil>.png", Some(v))], 1);
    report.wish_labels = vec!["\"q\"".into()];
    report.failed.push(FailedEntry {
        source_id: "S'1".into(),
        original_path: "\\f<1>".into(),
        error_message: "e&e".into(),
    });
    let html = render_internal_html(&report).unwrap();
    assert!(!html.contains("<script>"));
    assert!(!html.contains("<evil>"));
    assert!(html.contains("&lt;script&gt;"));
    assert!(html.contains("\\&lt;evil&gt;.png"));
    assert!(html.contains("「&quot;q&quot;」"));
    assert!(html.contains("<td>S&#39;1</td><td>\\f&lt;1&gt;</td><td>e&amp;e</td>"));
    assert!(html.contains("<td>P&lt;N&gt;G</td>"));
}

#[test]
fn internal_html_uses_the_given_dates_and_rates() {
    let report = make_report(vec![entry("\\a.png", None)], 3);
    let rates = RateTexts {
        recovery: "33.3".into(),
        valid: "1.5".into(),
        invalid: "2.5".into(),
        uncertain: "3.5".into(),
        quality: "4.5".into(),
        priority_quality: "5.5".into(),
        format_valid: vec!["6.5".into()],
    };
    let html = render_internal_html_with(&report, "D1", "D2", &rates);
    assert!(html.contains("<title>復旧業務レポート (CS 内部用) - D1</title>"));
    assert!(html.contains("<p>作成日時: D2</p>"));
    assert!(html.contains("(該当の 33.3%)"));
    assert!(html.contains("<tr><td>Valid (品質確認済み)</td><td>0</td><td>1.5%</td></tr>"));
    assert!(html.contains("<tr><td>Invalid (要確認)</td><td>0</td><td>2.5%</td></tr>"));
    assert!(html.contains("<tr><td>Uncertain (検証外)</td><td>1</td><td>3.5%</td></tr>"));
    assert!(html.contains("<span class=\"metric\">4.5%</span>"));
    assert!(html.contains("<tr><td>(検証なし)</td><td>0</td><td>0</td><td>1</td><td>1</td><td>6.5%</td></tr>"));
    assert!(!html.contains("5.5%"));
}

#[test]
fn internal_html_has_the_exact_layout() {
    let mut good = entry("\\p.png", Some(valid_result("PNG", "png_v1", "OK")));
    good.is_priority = true;
    good.bytes_written = 5_572;
    let mut bad = entry("\\bad.png", Some(invalid_result("PNG", "png_v1", "m", "壊れています", "メモ")));
    bad.bytes_written = 100;
    let mut report = make_report(vec![good, bad], 4);
    report.finished_at = UtcTime::from_timestamp(1_700_000_065, 0).unwrap();
    report.failed.push(FailedEntry {
        source_id: "NTFS#2".into(),
        original_path: "\\f.doc".into(),
        error_message: "read error".into(),
    });
    report.skipped.push(SkippedEntry {
        source_id: "NTFS#3".into(),
        original_path: "\\s.tmp".into(),
        reason: "excluded".into(),
    });
    let html = render_internal_html(&report).unwrap();

    let mut expected = String::new();
    expected.push_str("<!DOCTYPE html>\n<html lang=\"ja\">\n<head>\n  <meta charset=\"UTF-8\">\n");
    expected.push_str("  <title>復旧業務レポート (CS 内部用) - 2024-05-06 07:08</title>\n  <style>\n");
    expected.push_str("    body { font-family: \"Yu Gothic\", \"Hiragino Sans\", sans-serif; max-width: 1400px; margin: 1em auto; padding: 1em; font-size: 13px; }\n");
    expected.push_str("    h1 { border-bottom: 3px solid #1e40af; padding-bottom: 0.3em; color: #1e3a8a; }\n");
    expected.push_str("    h2 { color: #1e40af; margin-top: 1.5em; }\n");
    expected.push_str("    .summary { background: #eff6ff; padding: 1em 1.5em; border-radius: 4px; border-left: 4px solid #1e40af; }\n");
    expected.push_str("    .warning { background: #fef2f2; padding: 0.5em 1em; border-left: 4px solid #dc2626; margin: 1em 0; font-weight: bold; color: #991b1b; }\n");
    expected.push_str("    table { width: 100%; border-collapse: collapse; margin-top: 0.5em; font-size: 12px; }\n");
    expected.push_str("    th, td { padding: 0.4em 0.6em; text-align: left; border-bottom: 1px solid #ddd; vertical-align: top; }\n");
    expected.push_str("    th { background: #1e40af; color: white; }\n");
    expected.push_str("    .metric { font-size: 1.5em; font-weight: bold; color: #1e3a8a; }\n");
    expected.push_str("    .ratio { color: #6b7280; font-size: 0.85em; }\n");
    expected.push_str("    .invalid-group { margin: 1em 0; padding: 0.8em; background: #fef2f2; border-left: 4px solid #dc2626; border-radius: 4px; }\n");
    expected.push_str("    .invalid-group h3 { margin: 0 0 0.5em 0; color: #991b1b; font-size: 14px; }\n");
    expected.push_str("    .invalid-group ul { margin: 0; padding-left: 1.5em; font-family: monospace; font-size: 11px; }\n");
    expected.push_str("    .note { color: #6b7280; font-size: 11px; font-style: italic; }\n");
    expected.push_str("    footer { margin-top: 2em; color: #666; font-size: 0.8em; }\n");
    expected.push_str("  </style>\n</head>\n<body>\n  <h1>復旧業務レポート（CS 内部用）</h1>\n  <p>作成日時: 2024-05-06 07:08:09</p>\n\n");
    expected.push_str("  <div class=\"warning\">\n    [注意] このレポートは社内業務用です。CS 内部メモを含むため、お客様に共有しないでください。\n  </div>\n");
    expected.push_str("  <section class=\"summary\">\n    <h2>復旧対象</h2>\n    <table>\n");
    expected.push_str("      <tr><th>ご指定条件</th><td>「写真」</td></tr>\n");
    expected.push_str("      <tr><th>該当ファイル数</th><td><span class=\"metric\">4</span> 件</td></tr>\n    </table>\n");
    expected.push_str("    <h2>復旧結果 (全体)</h2>\n    <table>\n");
    expected.push_str("<tr><th>復旧成功</th><td><span class=\"metric\">2</span> 件 <span class=\"ratio\">(該当の 50.0%)</span></td></tr>\n");
    expected.push_str("<tr><th>復旧失敗</th><td>1 件</td></tr>\n<tr><th>スキップ</th><td>1 件</td></tr>\n</table>\n");
    expected.push_str("    <h2>品質判定内訳</h2>\n    <table>\n<tr><th>判定</th><th>件数</th><th>比率</th></tr>\n");
    expected.push_str("<tr><td>Valid (品質確認済み)</td><td>1</td><td>50.0%</td></tr>\n");
    expected.push_str("<tr><td>Invalid (要確認)</td><td>1</td><td>50.0%</td></tr>\n");
    expected.push_str("<tr><td>Uncertain (検証外)</td><td>0</td><td>0.0%</td></tr>\n</table>\n");
    expected.push_str("<p><strong>品質保証率: <span class=\"metric\">50.0%</span></strong> (復旧成功のうち Valid の比率)</p>\n");
    expected.push_str("    <h2>データ量と時間</h2>\n    <table>\n<tr><th>復旧総量</th><td>5.54 KB</td></tr>\n");
    expected.push_str("<tr><th>処理時間</th><td>1 分 5 秒</td></tr>\n</table>\n  </section>\n");
    expected.push_str("  <h2>お客様優先データ (Wishlist マッチ)</h2>\n  <table>\n");
    expected.push_str("<tr><th>該当ファイル数</th><td><span class=\"metric\">1</span> 件</td></tr>\n");
    expected.push_str("<tr><th>復旧データ量</th><td>5.44 KB</td></tr>\n");
    expected.push_str("<tr><th>品質保証率</th><td><span class=\"metric\">100.0%</span></td></tr>\n</table>\n  <table>\n");
    expected.push_str("<tr><th>判定</th><th>件数</th></tr>\n<tr><td>Valid (正常)</td><td>1</td></tr>\n");
    expected.push_str("<tr><td>Invalid (要確認)</td><td>0</td></tr>\n<tr><td>Uncertain (検証外)</td><td>0</td></tr>\n</table>\n");
    expected.push_str("  <h2>形式別ブレイクダウン</h2>\n  <table>\n");
    expected.push_str("<tr><th>形式</th><th>正常</th><th>要確認</th><th>検証外</th><th>合計</th><th>正常率</th></tr>\n");
    expected.push_str("    <tr><td>PNG</td><td>1</td><td>1</td><td>0</td><td>2</td><td>50.0%</td></tr>\n  </table>\n");
    expected.push_str("  <h2>要確認ファイル (理由別)</h2>\n");
    expected.push_str("  <div class=\"invalid-group\">\n    <h3>PNG - 壊れています (1 件)</h3>\n    <ul>\n");
    expected.push_str("      <li>\\bad.png <span class=\"note\">[CS メモ: メモ]</span></li>\n    </ul>\n  </div>\n");
    let sha = "aa".repeat(32);
    expected.push_str("  <section>\n    <h2>復旧ファイル (出力先・SHA256)</h2>\n    <table>\n");
    expected.push_str("<thead><tr><th>source_id</th><th>出力先</th><th>SHA256</th></tr></thead>\n      <tbody>\n");
    expected.push_str(&format!("        <tr><td>NTFS#1</td><td>/tmp/out</td><td>{}</td></tr>\n", sha));
    expected.push_str(&format!("        <tr><td>NTFS#1</td><td>/tmp/out</td><td>{}</td></tr>\n", sha));
    expected.push_str("      </tbody>\n    </table>\n  </section>\n");
    expected.push_str("  <section>\n    <h2>失敗ファイル</h2>\n    <table>\n");
    expected.push_str("<thead><tr><th>source_id</th><th>パス</th><th>エラー</th></tr></thead>\n      <tbody>\n");
    expected.push_str("        <tr><td>NTFS#2</td><td>\\f.doc</td><td>read error</td></tr>\n      </tbody>\n    </table>\n  </section>\n");
    expected.push_str("  <section>\n    <h2>スキップファイル</h2>\n    <table>\n");
    expected.push_str("<thead><tr><th>source_id</th><th>パス</th><th>理由</th></tr></thead>\n      <tbody>\n");
    expected.push_str("        <tr><td>NTFS#3</td><td>\\s.tmp</td><td>excluded</td></tr>\n      </tbody>\n    </table>\n  </section>\n");
    expected.push_str("  <footer>\n    <p>DDS Recovery Workbench - 内部業務レポート</p>\n  </footer>\n</body>\n</html>\n");
    assert_eq!(html, expected);
}

#[test]
fn internal_html_lists_sha256_and_output_path_of_every_recovered_file() {
    let mut a = entry("\\a.png", None);
    a.sha256 = Some("0123abcd".into());
    a.output_path = PathBuf::from("/out/live/a.png");
    let mut b = entry("\\b.png", None);
    b.sha256 = None;
    b.output_path = PathBuf::from("/out/deleted/b<1>.png");
    let html = render_internal_html(&make_report(vec![a, b], 2)).unwrap();
    assert!(html.contains("<tr><td>NTFS#1</td><td>/out/live/a.png</td><td>0123abcd</td></tr>"));
    assert!(html.contains("<tr><td>NTFS#1</td><td>/out/deleted/b&lt;1&gt;.png</td><td>-</td></tr>"));
    assert!(html.contains("お客様に共有しないでください"));
}

#[test]
fn internal_html_has_no_file_list_without_recovered_files() {
    let html = render_internal_html(&make_report(vec![], 0)).unwrap();
    assert!(!html.contains("出力先・SHA256"));
}
