use dds_workbench::recovery::error::RecoveryError;
use dds_workbench::recovery::sanitize::{insert_deleted_marker, sanitize_filename};

#[test]
fn sanitize_replaces_forbidden_chars() {
    assert_eq!(sanitize_filename("foo<>bar.txt").unwrap(), "foo__bar.txt");
    assert_eq!(sanitize_filename("a|b?c.txt").unwrap(), "a_b_c.txt");
    assert_eq!(sanitize_filename("path/with\\sep.txt").unwrap(), "path_with_sep.txt");
}

#[test]
fn sanitize_strips_trailing_dots_and_spaces() {
    assert_eq!(sanitize_filename("foo.txt . ").unwrap(), "foo.txt");
    assert_eq!(sanitize_filename("name   ").unwrap(), "name");
    assert_eq!(sanitize_filename("name...").unwrap(), "name");
}

#[test]
fn sanitize_prefixes_reserved_names() {
    // 予約名 4 種類: CON / PRN / AUX / NUL（拡張子なし・あり両方）。
    assert_eq!(sanitize_filename("CON").unwrap(), "_CON");
    assert_eq!(sanitize_filename("con.txt").unwrap(), "_con.txt");
    assert_eq!(sanitize_filename("PRN.log").unwrap(), "_PRN.log");
    // COM1-9 / LPT1-9。
    assert_eq!(sanitize_filename("COM1").unwrap(), "_COM1");
    assert_eq!(sanitize_filename("com1.txt").unwrap(), "_com1.txt");
    assert_eq!(sanitize_filename("LPT9.dat").unwrap(), "_LPT9.dat");
    // 似た名前は除外（COM0 / LPT0 は予約ではない、COMA も同じく）。
    assert_eq!(sanitize_filename("COM0").unwrap(), "COM0");
    assert_eq!(sanitize_filename("LPTA").unwrap(), "LPTA");
    assert_eq!(sanitize_filename("COM10").unwrap(), "COM10");
}

#[test]
fn sanitize_preserves_normal_names() {
    assert_eq!(sanitize_filename("report.docx").unwrap(), "report.docx");
    // 日本語ファイル名はそのまま保持。
    assert_eq!(
        sanitize_filename("日本語ファイル.pdf").unwrap(),
        "日本語ファイル.pdf"
    );
    assert_eq!(sanitize_filename("Makefile").unwrap(), "Makefile");
}

#[test]
fn sanitize_empty_returns_error() {
    assert!(matches!(
        sanitize_filename(""),
        Err(RecoveryError::UnsanitizableFilename { .. })
    ));
    // 末尾の `.` と空白の除去で空文字になるケースもエラー。
    assert!(matches!(
        sanitize_filename(" . . "),
        Err(RecoveryError::UnsanitizableFilename { .. })
    ));
}

#[test]
fn insert_deleted_marker_with_and_without_extension() {
    assert_eq!(
        insert_deleted_marker("foo.txt", 67),
        "foo (deleted-#67).txt"
    );
    assert_eq!(
        insert_deleted_marker("Makefile", 42),
        "Makefile (deleted-#42)"
    );
    // 複数 `.` の場合は最後を拡張子と見なす。
    assert_eq!(
        insert_deleted_marker("archive.tar.gz", 7),
        "archive.tar (deleted-#7).gz"
    );
}

#[test]
fn sanitize_replaces_only_the_c0_control_characters() {
    assert_eq!(sanitize_filename("a\u{1f}b").unwrap(), "a_b");
    assert_eq!(sanitize_filename("a\u{7f}").unwrap(), "a\u{7f}");
    assert_eq!(sanitize_filename("a\u{85}b").unwrap(), "a\u{85}b");
}
