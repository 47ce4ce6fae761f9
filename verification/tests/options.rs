use dds_workbench::recovery::options::{ConflictStrategy, RecoveryOptions};

#[test]
fn default_options_are_business_safe() {
    // デフォルトは業務的に安全側を選択していることを保証する回帰テスト。
    let opt = RecoveryOptions::default();
    assert_eq!(opt.conflict_strategy, ConflictStrategy::Rename);
    assert!(opt.mark_deleted_in_filename);
    assert!(opt.separate_live_and_deleted);
    assert!(opt.compute_sha256);
    assert!(opt.max_file_size_bytes.is_none());
}

#[test]
fn conflict_strategy_is_copy() {
    // Copy 制約が壊れていないことの保証（業務コードで値渡し多用）。
    let s = ConflictStrategy::Overwrite;
    let s2 = s;
    assert_eq!(s, s2);
}

#[test]
fn options_can_be_customized() {
    let opt = RecoveryOptions {
        conflict_strategy: ConflictStrategy::Skip,
        mark_deleted_in_filename: false,
        separate_live_and_deleted: false,
        compute_sha256: false,
        max_file_size_bytes: Some(100 * 1024 * 1024),
        ..Default::default()
    };
    assert_eq!(opt.conflict_strategy, ConflictStrategy::Skip);
    assert_eq!(opt.max_file_size_bytes, Some(100 * 1024 * 1024));
}
