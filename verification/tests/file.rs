use dds_workbench::attributes::file_name::MftReference;
use dds_workbench::file::{FileContentRef, NtfsFile};
use dds_workbench::attributes::standard_information::FileAttributes as FA;

fn make_file(
    record_index: u64,
    name: &str,
    is_directory: bool,
    is_deleted: bool,
    is_compressed: bool,
    is_encrypted: bool,
) -> NtfsFile {
    NtfsFile {
        record_index,
        path: format!("\\{}", name),
        name: name.to_string(),
        parent: MftReference {
            entry_number: 5,
            sequence_number: 1,
        },
        is_directory,
        is_deleted,
        created: None,
        modified: None,
        accessed: None,
        mft_modified: None,
        file_attributes: FA(0),
        has_alternate_streams: false,
        is_compressed,
        is_encrypted,
        is_sparse: false,
        content: FileContentRef::NoData,
        size: 0,
    }
}

#[test]
fn is_root_returns_true_for_record_5() {
    assert!(make_file(5, "any", false, false, false, false).is_root());
    assert!(!make_file(6, "any", false, false, false, false).is_root());
    assert!(!make_file(0, "any", false, false, false, false).is_root());
}

#[test]
fn is_system_metafile_for_records_0_to_23() {
    assert!(make_file(0, "$MFT", false, false, false, false).is_system_metafile());
    assert!(make_file(23, "x", false, false, false, false).is_system_metafile());
    assert!(!make_file(24, "x", false, false, false, false).is_system_metafile());
    assert!(!make_file(100, "user.txt", false, false, false, false).is_system_metafile());
}

#[test]
fn is_user_file_excludes_directory_and_system() {
    // ディレクトリは false
    assert!(!make_file(100, "dir", true, false, false, false).is_user_file());
    // システムは false
    assert!(!make_file(5, "x", false, false, false, false).is_user_file());
    // 通常ユーザファイルは true
    assert!(make_file(100, "x", false, false, false, false).is_user_file());
    // 削除済みでも user file 扱い（復旧対象）
    assert!(make_file(100, "x", false, true, false, false).is_user_file());
}

#[test]
fn extension_basic_cases() {
    assert_eq!(
        make_file(100, "foo.txt", false, false, false, false).extension(),
        Some("txt".to_string())
    );
    assert_eq!(
        make_file(100, "foo.TXT", false, false, false, false).extension(),
        Some("txt".to_string())
    );
    assert_eq!(
        make_file(100, "foo", false, false, false, false).extension(),
        None
    );
    assert_eq!(
        make_file(100, "foo.tar.gz", false, false, false, false).extension(),
        Some("gz".to_string())
    );
}

#[test]
fn is_simple_deleted_user_file_combinations() {
    // 全て満たす → true
    assert!(make_file(100, "x", false, true, false, false).is_simple_deleted_user_file());
    // 非削除 → false
    assert!(!make_file(100, "x", false, false, false, false).is_simple_deleted_user_file());
    // 削除 + 圧縮 → false
    assert!(!make_file(100, "x", false, true, true, false).is_simple_deleted_user_file());
    // 削除 + 暗号化 → false
    assert!(!make_file(100, "x", false, true, false, true).is_simple_deleted_user_file());
    // 削除 + ディレクトリ → user_file ではないので false
    assert!(!make_file(100, "x", true, true, false, false).is_simple_deleted_user_file());
    // 削除 + システム → false
    assert!(!make_file(5, "x", false, true, false, false).is_simple_deleted_user_file());
}

#[test]
fn file_content_ref_size_correct() {
    assert_eq!(FileContentRef::Resident(vec![0u8; 50]).size(), 50);
    assert_eq!(
        FileContentRef::NonResident {
            real_size: 1024,
            runs: vec![],
        }
        .size(),
        1024
    );
    assert_eq!(FileContentRef::NoData.size(), 0);
    assert_eq!(FileContentRef::Resident(Vec::new()).size(), 0);
}

#[test]
fn file_content_ref_is_resident() {
    assert!(FileContentRef::Resident(vec![1, 2]).is_resident());
    assert!(!FileContentRef::NonResident {
        real_size: 100,
        runs: vec![],
    }
    .is_resident());
    assert!(!FileContentRef::NoData.is_resident());
}

// Chunk 15: NtfsFile 業務統合層向け拡張のテスト ----------------------------

#[test]
fn has_system_name_prefix_true_for_mft() {
    let f = make_file(0, "$MFT", false, false, false, false);
    assert!(f.has_system_name_prefix());
}

#[test]
fn has_system_name_prefix_true_for_recycle_bin_entries() {
    // $RECYCLE.BIN 配下の削除済みファイル命名規約 ($I* / $R*) も該当。
    let f_i = make_file(200, "$IABC123.docx", false, false, false, false);
    let f_r = make_file(201, "$RABC123.docx", false, false, false, false);
    assert!(f_i.has_system_name_prefix());
    assert!(f_r.has_system_name_prefix());
}

#[test]
fn has_system_name_prefix_false_for_normal_files() {
    let f = make_file(100, "report.docx", false, false, false, false);
    assert!(!f.has_system_name_prefix());
}
