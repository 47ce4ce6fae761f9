use dds_workbench::recovery::report::{RecoveredEntry, RecoveryReport};
use dds_workbench::recovery::validation::{ValidationResult, ValidationStatus};
use dds_workbench::report::docx_customer::{customer_docx_blocks, customer_document, render_customer_docx, DocBlock, COMPANY_NAME};
use dds_workbench::time::UtcTime;
use std::io::Read;
use std::path::PathBuf;

fn result(status: ValidationStatus, user: &str, note: Option<&str>, label: Option<&str>) -> ValidationResult {
    ValidationResult {
        status,
        format_detected: Some("PNG".to_string()),
        validator_name: "png_v1".to_string(),
        user_message_ja: Some(user.to_string()),
        internal_note_ja: note.map(|n| n.to_string()),
        diagnostics: vec!["diag".to_string()],
        uncertain_label: label.map(|l| l.to_string()),
    }
}

fn build_report(wish_labels: Vec<String>, recovered: Vec<RecoveredEntry>) -> RecoveryReport {
    let now = UtcTime::from_timestamp(1_700_000_000, 0).unwrap();
    let total_matched = recovered.len();
    RecoveryReport {
        started_at: now,
        finished_at: now,
        total_matched,
        recovered,
        failed: vec![],
        skipped: vec![],
        wish_labels,
    }
}

fn entry(path: &str, validation: Option<ValidationResult>) -> RecoveredEntry {
    RecoveredEntry {
        source_id: "NTFS#1".into(),
        original_path: path.into(),
        output_path: PathBuf::from("/tmp/out"),
        bytes_written: 4096,
        priority_score: 100,
        is_deleted: false,
        sha256: None,
        validation,
        matched_wish_labels: vec![],
        is_priority: false,
    }
}

/// .docx (ZIP) を展開し、全 .xml の中身を文字列連結して返すテストヘルパー。
fn extract_docx_text(docx_bytes: &[u8]) -> String {
    let cursor = std::io::Cursor::new(docx_bytes);
    let mut archive = zip::ZipArchive::new(cursor).expect("docx is a ZIP archive");
    let mut all_text = String::new();
    for i in 0..archive.len() {
        let mut file = archive.by_index(i).unwrap();
        if file.name().ends_with(".xml") {
            let mut content = String::new();
            file.read_to_string(&mut content).unwrap();
            all_text.push_str(&content);
        }
    }
    all_text
}

#[test]
fn customer_docx_contains_title() {
    // タイトル「データ復旧レポート」と会社名 (お問い合わせ先) が含まれる。
    let bytes = render_customer_docx(&build_report(vec![], vec![])).unwrap();
    assert!(bytes.starts_with(b"PK\x03\x04"));
    let text = extract_docx_text(&bytes);
    assert!(text.contains("データ復旧レポート"));
    assert!(text.contains(COMPANY_NAME));
}

#[test]
fn customer_docx_shows_recovery_counts() {
    // 通常 / 削除 / 合計の件数が表示される。
    let mut live_entry = entry("\\dir\\a.png", None);
    live_entry.is_deleted = false;
    let mut del_entry = entry("\\dir\\b.png", None);
    del_entry.is_deleted = true;
    let report = build_report(vec![], vec![live_entry, del_entry]);
    let bytes = render_customer_docx(&report).unwrap();
    let text = extract_docx_text(&bytes);
    assert!(text.contains("通常ファイル"));
    assert!(text.contains("削除ファイル"));
    assert!(text.contains("合計"));
}

#[test]
fn customer_docx_omits_quality_metrics() {
    // Chunk 24a: 品質保証率 / Valid / Invalid / Uncertain 表示なし (お客様向け簡素化)。
    let v_ok = result(ValidationStatus::Valid, "OK", None, None);
    let report = build_report(vec!["写真".into()], vec![entry("\\a.png", Some(v_ok))]);
    let bytes = render_customer_docx(&report).unwrap();
    let text = extract_docx_text(&bytes);
    assert!(!text.contains("品質保証率"), "品質保証率は削除されている");
    assert!(!text.contains("品質確認"));
    assert!(!text.contains("正常確認済み"));
    assert!(!text.contains("要ご確認"));
    // 「自動確認対象外」キーワードも本文から消えていること。
    assert!(!text.contains("自動確認対象外"));
}

#[test]
fn customer_docx_omits_recovery_datetime() {
    // Chunk 24a: 復旧実施日時 (「作成日:」等) の表示なし。
    let report = build_report(vec![], vec![]);
    let bytes = render_customer_docx(&report).unwrap();
    let text = extract_docx_text(&bytes);
    assert!(!text.contains("作成日"), "作成日は削除されている");
    assert!(!text.contains("復旧実施日時"));
}

#[test]
fn customer_docx_shows_priority_section_when_priority_present() {
    // Wishlist マッチ (is_priority=true) があれば「ご指定優先データ」セクションを表示。
    let v_ok = result(ValidationStatus::Valid, "OK", None, None);
    let mut e = entry("\\photo.png", Some(v_ok));
    e.is_priority = true;
    let report = build_report(vec!["写真".into()], vec![e]);
    let bytes = render_customer_docx(&report).unwrap();
    let text = extract_docx_text(&bytes);
    assert!(text.contains("ご指定優先データ"));
    assert!(text.contains("写真"));
}

#[test]
fn customer_docx_hides_priority_section_when_no_priority() {
    // priority_count == 0 のとき「ご指定優先データ」セクションは省略。
    let v_ok = result(ValidationStatus::Valid, "OK", None, None);
    let e = entry("\\photo.png", Some(v_ok));
    let report = build_report(vec![], vec![e]);
    let bytes = render_customer_docx(&report).unwrap();
    let text = extract_docx_text(&bytes);
    assert!(!text.contains("ご指定優先データ"));
}

#[test]
fn customer_docx_excludes_internal_note() {
    // 最重要 (Chunk 20.5 から継続): internal_note_ja が顧客 .docx に含まれてはならない。
    let validation = result(
        ValidationStatus::Invalid,
        "PNG として開けない可能性があります",
        Some("再復旧推奨 / CS 確認案件"),
        None,
    );
    let report = build_report(
        vec!["写真".into()],
        vec![entry("\\bad.png", Some(validation))],
    );
    let bytes = render_customer_docx(&report).unwrap();
    let text = extract_docx_text(&bytes);
    assert!(
        !text.contains("再復旧推奨"),
        "CS 内部メモは顧客 .docx に含まれてはならない"
    );
    assert!(!text.contains("CS 確認案件"));
}

#[test]
fn customer_docx_omits_uncertain_breakdown() {
    // Chunk 24a: 「自動確認対象外について」の理由内訳セクションが完全削除されている。
    let v_unc = result(ValidationStatus::Uncertain, "ユーザー", Some("メモ"), Some("対応 Validator なし"));
    let report = build_report(vec![], vec![entry("\\x.xyz", Some(v_unc))]);
    let bytes = render_customer_docx(&report).unwrap();
    let text = extract_docx_text(&bytes);
    assert!(!text.contains("自動確認対象外について"));
    assert!(!text.contains("対応 Validator なし"));
}

fn texts(blocks: &[DocBlock]) -> Vec<String> {
    let mut out = Vec::new();
    for b in blocks {
        match b {
            DocBlock::Heading { text, .. } => out.push(text.clone()),
            DocBlock::Blank => out.push(String::new()),
            DocBlock::Table { rows } => {
                for (l, v) in rows {
                    out.push(format!("{}={}", l, v));
                }
            }
            DocBlock::Text { text } => out.push(text.clone()),
        }
    }
    out
}

#[test]
fn customer_blocks_list_counts_size_and_contact() {
    let mut a = entry("\\a.png", None);
    a.bytes_written = 1024;
    let mut b = entry("\\b.png", None);
    b.is_deleted = true;
    b.bytes_written = 1024;
    let report = build_report(vec![], vec![a, b]);
    let t = texts(&customer_docx_blocks(&report));
    assert_eq!(
        t,
        vec![
            "データ復旧レポート".to_string(),
            String::new(),
            "■ 復旧結果".to_string(),
            "通常ファイル=1 件".to_string(),
            "削除ファイル=1 件".to_string(),
            "合計=2 件、2.00 KB".to_string(),
            String::new(),
            "■ お問い合わせ先".to_string(),
            format!("復旧データに関するお問い合わせは、{}までご連絡ください。", COMPANY_NAME),
        ]
    );
}

#[test]
fn customer_blocks_show_wishes_joined_when_a_file_matched() {
    let mut a = entry("\\a.png", None);
    a.is_priority = true;
    let report = build_report(vec!["写真".into(), "書類".into()], vec![a]);
    let t = texts(&customer_docx_blocks(&report));
    assert!(t.contains(&"■ ご指定優先データ".to_string()));
    assert!(t.contains(&"該当ファイル=1 件".to_string()));
    assert!(t.contains(&"ご指定条件=写真、書類".to_string()));
}

#[test]
fn customer_blocks_do_not_depend_on_validation_or_notes() {
    let plain = build_report(vec![], vec![entry("\\a.png", None)]);
    let noted = build_report(
        vec![],
        vec![entry(
            "\\other\\name.png",
            Some(result(ValidationStatus::Invalid, "壊れています", Some("社外秘メモ"), None)),
        )],
    );
    assert_eq!(texts(&customer_docx_blocks(&plain)), texts(&customer_docx_blocks(&noted)));
}

/// The texts of the runs of a paragraph.
fn paragraph_texts(p: &docx_rs::Paragraph) -> Vec<String> {
    let mut out = Vec::new();
    for child in &p.children {
        if let docx_rs::ParagraphChild::Run(run) = child {
            let mut t = String::new();
            for rc in &run.children {
                if let docx_rs::RunChild::Text(text) = rc {
                    t.push_str(&text.text);
                }
            }
            out.push(t);
        }
    }
    out
}

#[test]
fn customer_document_has_one_body_item_per_block() {
    let mut a = entry("\\a.png", None);
    a.bytes_written = 1024;
    a.is_priority = true;
    let report = build_report(vec!["写真\n2024".into()], vec![a]);
    let doc = customer_document(&report);
    let children = &doc.document.children;
    let blocks = customer_docx_blocks(&report);
    assert_eq!(children.len(), blocks.len());
    assert_eq!(children.len(), 10);
    match &children[0] {
        docx_rs::DocumentChild::Paragraph(p) => assert_eq!(paragraph_texts(p), vec!["データ復旧レポート".to_string()]),
        _ => panic!("the title is a paragraph"),
    }
    match &children[1] {
        docx_rs::DocumentChild::Paragraph(p) => assert!(paragraph_texts(p).is_empty()),
        _ => panic!("a blank line is a paragraph"),
    }
    match &children[3] {
        docx_rs::DocumentChild::Table(t) => assert_eq!(t.rows.len(), 3),
        _ => panic!("the results are a table"),
    }
    match &children[6] {
        docx_rs::DocumentChild::Table(t) => {
            assert_eq!(t.rows.len(), 2);
            let docx_rs::TableChild::TableRow(row) = &t.rows[1];
            assert_eq!(row.cells.len(), 2);
            let docx_rs::TableRowChild::TableCell(cell) = &row.cells[1];
            match &cell.children[0] {
                docx_rs::TableCellContent::Paragraph(p) => assert_eq!(paragraph_texts(p), vec!["写真2024".to_string()]),
                _ => panic!("a cell holds a paragraph"),
            }
        }
        _ => panic!("the wishes are a table"),
    }
}

#[test]
fn customer_docx_is_a_zip_archive() {
    let report = build_report(vec![], vec![entry("\\a.png", None)]);
    let bytes = render_customer_docx(&report).unwrap();
    assert_eq!(&bytes[..4], b"PK\x03\x04");
}
