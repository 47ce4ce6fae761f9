use dds_workbench::recovery::progress::{format_duration, format_elapsed_secs, report_due, truncate_path, NoopProgressReporter, ProgressReporter};
use std::time::Duration;

#[test]
fn format_duration_under_one_hour() {
    // 125 秒 = 2 分 5 秒 → "2:05"。1 時間未満は `mm:ss`。
    let d = Duration::from_secs(125);
    assert_eq!(format_duration(d), "2:05");
}

#[test]
fn format_duration_over_one_hour() {
    // 3725 秒 = 1 時間 2 分 5 秒 → "1:02:05"。1 時間以上は `h:mm:ss`。
    let d = Duration::from_secs(3725);
    assert_eq!(format_duration(d), "1:02:05");
}

#[test]
fn truncate_path_short_unchanged() {
    // max_len 以下のパスはそのまま返る。
    let path = "C:\\test.txt";
    assert_eq!(truncate_path(path, 50), "C:\\test.txt");
}

#[test]
fn truncate_path_long_truncated() {
    // 長すぎる場合は中央が ... で省略される。
    let path = "C:\\Users\\Chou\\Documents\\very\\deep\\nested\\folder\\report.docx";
    let result = truncate_path(path, 30);
    assert!(
        result.chars().count() <= 30,
        "result too long: {:?}",
        result
    );
    assert!(result.contains("..."), "ellipsis missing: {:?}", result);
    assert!(result.starts_with("C:\\"), "prefix missing: {:?}", result);
    assert!(result.ends_with(".docx"), "suffix missing: {:?}", result);
}

#[test]
fn truncate_path_handles_multibyte_safely() {
    // 業務上「お客様」「復旧データ」など日本語パスが入る。char 境界で切ること。
    let path = "\\お客様データ\\写真フォルダ\\旅行記念撮影_2025_夏休み.jpg";
    let result = truncate_path(path, 20);
    assert!(result.chars().count() <= 20);
    // バイト境界違反でクラッシュしないこと（assert_eq! まで到達すれば OK）。
    assert!(!result.is_empty());
}

#[test]
fn noop_reporter_does_nothing() {
    // クラッシュしないことだけ確認。出力は無い。
    let reporter = NoopProgressReporter;
    reporter.report(1, 100, "test.txt");
    reporter.report(100, 100, "");
}

#[test]
fn format_elapsed_secs_pads_minutes_and_seconds() {
    assert_eq!(format_elapsed_secs(0), "0:00");
    assert_eq!(format_elapsed_secs(59), "0:59");
    assert_eq!(format_elapsed_secs(3600), "1:00:00");
    assert_eq!(format_elapsed_secs(36_000 + 61), "10:01:01");
}

#[test]
fn truncate_path_keeps_both_ends_around_ellipsis() {
    assert_eq!(truncate_path("abcdefghij", 7), "ab...ij");
    assert_eq!(truncate_path("abcdefghij", 2), "ab");
    assert_eq!(truncate_path("abcdefghij", 3), "...");
    assert_eq!(truncate_path("abc", 3), "abc");
}

#[test]
fn report_due_after_interval_or_on_last_file() {
    assert!(report_due(5_000, 5_000, 1, 10));
    assert!(!report_due(4_999, 5_000, 1, 10));
    assert!(report_due(0, 5_000, 10, 10));
    assert!(!report_due(0, 5_000, 0, 0));
}

/// The console reporter's decisions for an interval of 1000 s: the first
/// call comes an hour after the initial mark and prints, the second comes at
/// once and is held back, and the last file prints whatever the interval.
#[test]
fn console_reporter_respects_interval() {
    let interval = Duration::from_secs(1000).as_nanos();
    let first_since = Duration::from_secs(3600).as_nanos();
    assert!(report_due(first_since, interval, 1, 100));
    let second_since = Duration::from_millis(1).as_nanos();
    assert!(!report_due(second_since, interval, 2, 100));
    assert!(report_due(second_since, interval, 100, 100));
    assert!(!report_due(0, interval, 0, 0));
}
