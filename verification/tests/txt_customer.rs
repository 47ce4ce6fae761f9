use dds_workbench::recovery::report::{RecoveredEntry, RecoveryReport};
use dds_workbench::recovery::validation::{ValidationResult, ValidationStatus};
use dds_workbench::report::docx_customer::COMPANY_NAME;
use dds_workbench::report::txt_customer::{render_invalid_files_txt, render_invalid_files_txt_dated, render_uncertain_files_txt, split_folder_filename};
use dds_workbench::time::UtcTime;
use std::path::PathBuf;

fn invalid_result(format: &str, validator: &str, diag: &str, user: &str, note: &str) -> ValidationResult {
    ValidationResult {
        status: ValidationStatus::Invalid,
        format_detected: Some(format.to_string()),
        validator_name: validator.to_string(),
        user_message_ja: Some(user.to_string()),
        internal_note_ja: Some(note.to_string()),
        diagnostics: vec![diag.to_string()],
        uncertain_label: None,
    }
}

fn valid_result(format: &str, validator: &str, user: &str) -> ValidationResult {
    ValidationResult {
        status: ValidationStatus::Valid,
        format_detected: Some(format.to_string()),
        validator_name: validator.to_string(),
        user_message_ja: Some(user.to_string()),
        internal_note_ja: None,
        diagnostics: vec![],
        uncertain_label: None,
    }
}

fn uncertain_result(label: &str, diag: &str, user: &str, note: &str) -> ValidationResult {
    ValidationResult {
        status: ValidationStatus::Uncertain,
        format_detected: None,
        validator_name: String::new(),
        user_message_ja: Some(user.to_string()),
        internal_note_ja: Some(note.to_string()),
        diagnostics: vec![diag.to_string()],
        uncertain_label: Some(label.to_string()),
    }
}

fn build_report(recovered: Vec<RecoveredEntry>) -> RecoveryReport {
    let now = UtcTime::from_timestamp(1_700_000_000, 0).unwrap();
    let total_matched = recovered.len();
    RecoveryReport {
        started_at: now,
        finished_at: now,
        total_matched,
        recovered,
        failed: vec![],
        skipped: vec![],
        wish_labels: vec![],
    }
}

fn invalid_entry(path: &str) -> RecoveredEntry {
    let validation = invalid_result(
        "PNG",
        "png_v1",
        "magic mismatch",
        "PNG として開けない可能性があります",
        "再復旧推奨",
    );
    RecoveredEntry {
        source_id: "NTFS#1".into(),
        original_path: path.into(),
        output_path: PathBuf::from("/tmp/out"),
        bytes_written: 100,
        priority_score: 50,
        is_deleted: false,
        sha256: None,
        validation: Some(validation),
        matched_wish_labels: vec![],
        is_priority: false,
    }
}

fn valid_entry(path: &str) -> RecoveredEntry {
    let validation = valid_result("PNG", "png_v1", "OK");
    RecoveredEntry {
        source_id: "NTFS#2".into(),
        original_path: path.into(),
        output_path: PathBuf::from("/tmp/out"),
        bytes_written: 100,
        priority_score: 50,
        is_deleted: false,
        sha256: None,
        validation: Some(validation),
        matched_wish_labels: vec![],
        is_priority: false,
    }
}

#[test]
fn txt_groups_by_folder() {
    // 同じフォルダのファイルが連続 1 ブロックとして出力されること。
    let report = build_report(vec![
        invalid_entry("\\photos\\a.png"),
        invalid_entry("\\photos\\b.png"),
        invalid_entry("\\docs\\report.docx"),
    ]);
    let text = render_invalid_files_txt(&report);
    // \docs (BTreeMap でアルファベット順 → docs が先) の見出しが出る。
    assert!(text.contains("==== \\docs ===="));
    assert!(text.contains("==== \\photos ===="));
    // 同じフォルダ内の 2 ファイルが連続して並ぶ。
    let photos_block = text.split("==== \\photos ====").nth(1).unwrap();
    let head: String = photos_block.lines().take(3).collect::<Vec<_>>().join("\n");
    assert!(head.contains("a.png"));
    assert!(head.contains("b.png"));
}

#[test]
fn txt_only_includes_invalid_entries() {
    // Valid は出力されない。
    let report = build_report(vec![
        invalid_entry("\\photos\\bad.png"),
        valid_entry("\\photos\\good.png"),
    ]);
    let text = render_invalid_files_txt(&report);
    assert!(text.contains("bad.png"));
    assert!(!text.contains("good.png"), "Valid は含まれない");
}

#[test]
fn txt_includes_summary_line() {
    let report = build_report(vec![
        invalid_entry("\\a.png"),
        invalid_entry("\\b.png"),
        invalid_entry("\\c.png"),
    ]);
    let text = render_invalid_files_txt(&report);
    assert!(text.contains("合計: 3 ファイル"));
    // 会社名フッターも含まれる。
    assert!(text.contains(COMPANY_NAME));
}

#[test]
fn txt_handles_root_files_correctly() {
    // 先頭 `\` 直下のファイル → (ルート) 扱い。
    let report = build_report(vec![invalid_entry("\\root_only.png")]);
    let text = render_invalid_files_txt(&report);
    assert!(text.contains("==== (ルート) ===="), "got: {}", text);
    assert!(text.contains("root_only.png"));
}

#[test]
fn txt_zero_invalid_emits_friendly_message() {
    // Invalid 0 件のとき安心メッセージのみ出力。Chunk 23.8 で文言変更。
    let report = build_report(vec![valid_entry("\\a.png")]);
    let text = render_invalid_files_txt(&report);
    assert!(text.contains("該当ファイルはありません"));
    // 合計行は出ない。
    assert!(!text.contains("合計:"));
}

// === Chunk 23.8: TXT 分割テスト ===

fn uncertain_entry(path: &str, label: &str) -> RecoveredEntry {
    let validation = uncertain_result(label, "diag", "顧客", "CS メモ");
    RecoveredEntry {
        source_id: "NTFS#3".into(),
        original_path: path.into(),
        output_path: PathBuf::from("/tmp/out"),
        bytes_written: 100,
        priority_score: 50,
        is_deleted: false,
        sha256: None,
        validation: Some(validation),
        matched_wish_labels: vec![],
        is_priority: false,
    }
}

#[test]
fn invalid_files_txt_contains_only_invalid() {
    // Chunk 23.8: render_invalid_files_txt は Invalid のみ、Uncertain は含まない。
    let report = build_report(vec![
        invalid_entry("\\bad.png"),
        uncertain_entry("\\unknown.xyz", "対応 Validator なし"),
        valid_entry("\\good.png"),
    ]);
    let text = render_invalid_files_txt(&report);
    assert!(text.contains("bad.png"), "Invalid は含まれる");
    assert!(
        !text.contains("unknown.xyz"),
        "Uncertain は invalid TXT に含まれない"
    );
    assert!(!text.contains("good.png"));
    // Chunk 23.8 で「破損疑いファイル一覧」ヘッダーに変更。
    assert!(text.contains("破損疑いファイル一覧"));
}

#[test]
fn uncertain_files_txt_uses_business_message() {
    // Chunk 23.8: render_uncertain_files_txt は業務文言を冒頭で示す。
    let report = build_report(vec![
        uncertain_entry("\\unknown.xyz", "対応 Validator なし"),
        uncertain_entry("\\big.zip", "サイズ超過"),
        invalid_entry("\\bad.png"),
        valid_entry("\\good.png"),
    ]);
    let text = render_uncertain_files_txt(&report);
    // ヘッダー文言
    assert!(text.contains("自動確認対象外ファイル一覧"));
    // 業務確定済み文言
    assert!(text.contains("現在未対応もしくはファイル形式が特殊"));
    assert!(text.contains("ファイルサイズが大きすぎる"));
    // Uncertain ファイルが含まれ、Invalid / Valid は含まれない
    assert!(text.contains("unknown.xyz"));
    assert!(text.contains("big.zip"));
    assert!(!text.contains("bad.png"));
    assert!(!text.contains("good.png"));
    // 理由ラベルが表示される (short_label)
    assert!(text.contains("対応 Validator なし"));
    assert!(text.contains("サイズ超過"));
}

#[test]
fn uncertain_files_txt_zero_uncertain_friendly_message() {
    // Chunk 23.8: Uncertain 0 件のときも安心メッセージで終わる。
    let report = build_report(vec![valid_entry("\\a.png"), invalid_entry("\\b.png")]);
    let text = render_uncertain_files_txt(&report);
    assert!(text.contains("該当ファイルはありません"));
    assert!(text.contains("自動確認対象外ファイル一覧"));
    assert!(!text.contains("合計:"));
}

#[test]
fn split_folder_filename_cases() {
    assert_eq!(split_folder_filename("\\dir1\\dir2\\file.txt"), ("\\dir1\\dir2".to_string(), "file.txt"));
    assert_eq!(split_folder_filename("\\file.txt"), (String::new(), "file.txt"));
    assert_eq!(split_folder_filename("file.txt"), (String::new(), "file.txt"));
    assert_eq!(split_folder_filename("a\\"), ("a".to_string(), ""));
}

#[test]
fn dated_invalid_txt_is_exact() {
    let report = build_report(vec![
        invalid_entry("\\photos\\b.png"),
        invalid_entry("\\docs\\r.docx"),
        valid_entry("\\docs\\ok.docx"),
        invalid_entry("\\photos\\a.png"),
        invalid_entry("\\top.png"),
    ]);
    let text = render_invalid_files_txt_dated(&report, "2026年01月02日");
    let expected = format!(
        "=== 破損疑いファイル一覧 ===\n\n作成日: 2026年01月02日\n\n\
         以下のファイルは復旧されましたが、自動品質確認で破損の疑いがありました。\n\
         お開きになる前にお気をつけください。\n\n\
         ==== (ルート) ====\n  top.png\n\n\
         ==== \\docs ====\n  r.docx\n\n\
         ==== \\photos ====\n  b.png\n  a.png\n\n\
         合計: 4 ファイル\n\n\
         ご不明な点は、担当者までお問い合わせください。\n{}\n",
        COMPANY_NAME
    );
    assert_eq!(text, expected);
}

#[test]
fn lists_do_not_depend_on_messages_or_notes() {
    let mut a = invalid_entry("\\d\\x.png");
    let mut b = invalid_entry("\\d\\x.png");
    if let Some(v) = a.validation.as_mut() {
        v.internal_note_ja = Some("社外秘 A".into());
        v.user_message_ja = Some("A".into());
    }
    if let Some(v) = b.validation.as_mut() {
        v.internal_note_ja = Some("社外秘 B".into());
        v.diagnostics = vec!["other".into()];
    }
    b.bytes_written = 999;
    let ta = render_invalid_files_txt_dated(&build_report(vec![a]), "D");
    let tb = render_invalid_files_txt_dated(&build_report(vec![b]), "D");
    assert_eq!(ta, tb);
    assert!(!ta.contains("社外秘"));
}

#[test]
fn txt_lists_are_dated_today_in_local_time() {
    let report = build_report(vec![]);
    let today = chrono::Local::now().format("%Y年%m月%d日").to_string();
    let t = render_invalid_files_txt(&report);
    assert!(t.contains(&format!("作成日: {}\n", today)), "{}", t);
    let u = render_uncertain_files_txt(&report);
    assert!(u.contains(&format!("作成日: {}\n", today)), "{}", u);
}
