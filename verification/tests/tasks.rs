use dds_workbench::attributes::file_name::MftReference;
use dds_workbench::attributes::standard_information::FileAttributes;
use dds_workbench::file::{FileContentRef, NtfsFile};
use dds_workbench::recovery::engine::{
    decide_output_path, finish_task, sha256_hex, ProcessedOutcome, RecoveryConfig, RecoveryTask, TaskStop,
};
use dds_workbench::recovery::error::RecoveryError;
use dds_workbench::recovery::options::{ConflictStrategy, RecoveryOptions};
use dds_workbench::recovery::timestamps::timestamps_of;
use dds_workbench::time::UtcTime;
use std::path::{Path, PathBuf};

fn make_file(record_index: u64, path: &str, is_deleted: bool) -> NtfsFile {
    let name = path.rsplit_once('\\').map(|(_, n)| n.to_string()).unwrap_or_else(|| path.to_string());
    NtfsFile {
        record_index,
        path: path.to_string(),
        name,
        parent: MftReference { entry_number: 5, sequence_number: 1 },
        is_directory: false,
        is_deleted,
        created: None,
        modified: None,
        accessed: None,
        mft_modified: None,
        file_attributes: FileAttributes(0),
        has_alternate_streams: false,
        is_compressed: false,
        is_encrypted: false,
        is_sparse: false,
        content: FileContentRef::NoData,
        size: 0,
    }
}

fn task(path: &str) -> RecoveryTask {
    RecoveryTask {
        ntfs_file: make_file(7, path, false),
        source_id: "NTFS#7".into(),
        content: b"abc".to_vec(),
        is_priority: true,
        matched_wish_labels: vec!["写真".into()],
        priority_score: 75,
    }
}

fn base() -> PathBuf {
    Path::new("/nonexistent-recovery-root").join("out")
}

#[test]
fn decide_output_path_overwrite_takes_the_built_path() {
    let cfg = RecoveryConfig::from_single_dir(&base());
    let opt = RecoveryOptions { conflict_strategy: ConflictStrategy::Overwrite, ..Default::default() };
    let p = match decide_output_path(&make_file(7, "\\a\\b.txt", false), &cfg, &opt, &base()) {
        Ok(p) => p,
        Err(_) => panic!("expected a path"),
    };
    assert_eq!(p, base().join("live").join("a").join("b.txt"));
}

#[test]
fn decide_output_path_refuses_traversal() {
    let cfg = RecoveryConfig::from_single_dir(&base());
    let opt = RecoveryOptions::default();
    match decide_output_path(&make_file(7, "\\..\\b.txt", false), &cfg, &opt, &base()) {
        Err(TaskStop::Failed(RecoveryError::PathTraversal { path })) => assert_eq!(path, "\\..\\b.txt"),
        _ => panic!("expected a traversal failure"),
    }
}

#[test]
fn decide_output_path_skip_and_rename_keep_a_free_path() {
    let cfg = RecoveryConfig::from_single_dir(&base());
    for strategy in [ConflictStrategy::Skip, ConflictStrategy::Rename] {
        let opt = RecoveryOptions { conflict_strategy: strategy, ..Default::default() };
        let p = match decide_output_path(&make_file(7, "\\c.txt", false), &cfg, &opt, &base()) {
            Ok(p) => p,
            Err(_) => panic!("nothing exists there"),
        };
        assert_eq!(p, base().join("live").join("c.txt"));
    }
}

#[test]
fn finish_task_records_the_written_file() {
    let t = task("\\a.png");
    let opt = RecoveryOptions::default();
    match finish_task(&t, PathBuf::from("/x/a.png"), Ok(3), None, &opt) {
        ProcessedOutcome::Recovered(e) => {
            assert_eq!(e.source_id, "NTFS#7");
            assert_eq!(e.original_path, "\\a.png");
            assert_eq!(e.output_path, PathBuf::from("/x/a.png"));
            assert_eq!(e.bytes_written, 3);
            assert_eq!(e.priority_score, 75);
            assert!(e.is_priority);
            assert_eq!(e.matched_wish_labels, vec!["写真".to_string()]);
            assert_eq!(e.sha256, Some(sha256_hex(b"abc")));
            assert!(e.validation.is_none());
        }
        _ => panic!("expected Recovered"),
    }
    let no_hash = RecoveryOptions { compute_sha256: false, ..Default::default() };
    match finish_task(&t, PathBuf::from("/x/a.png"), Ok(3), None, &no_hash) {
        ProcessedOutcome::Recovered(e) => assert!(e.sha256.is_none()),
        _ => panic!("expected Recovered"),
    }
}

#[test]
fn finish_task_reports_a_failed_write() {
    let t = task("\\a.png");
    let err = std::io::Error::new(std::io::ErrorKind::PermissionDenied, "denied");
    match finish_task(&t, PathBuf::from("/x/a.png"), Err(err), None, &RecoveryOptions::default()) {
        ProcessedOutcome::Failed(f) => {
            assert_eq!(f.source_id, "NTFS#7");
            assert_eq!(f.original_path, "\\a.png");
            assert_eq!(f.error_message, "I/O error: denied");
        }
        _ => panic!("expected Failed"),
    }
}

#[test]
fn timestamps_only_when_all_three_are_known() {
    let t0 = UtcTime::from_timestamp(1, 0).unwrap();
    let t1 = UtcTime::from_timestamp(2, 0).unwrap();
    let t2 = UtcTime::from_timestamp(3, 0).unwrap();
    let mut f = make_file(9, "\\x", false);
    assert!(timestamps_of(&f).is_none());
    f.created = Some(t0);
    f.modified = Some(t1);
    assert!(timestamps_of(&f).is_none());
    f.accessed = Some(t2);
    let ts = timestamps_of(&f).unwrap();
    assert_eq!((ts.created, ts.modified, ts.accessed), (t0, t1, t2));
}
