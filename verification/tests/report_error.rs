use dds_workbench::report::error::ReportError;

#[test]
fn io_error_is_convertible_from_std_io() {
    let io_err = std::io::Error::new(std::io::ErrorKind::NotFound, "missing");
    let rep: ReportError = io_err.into();
    assert!(matches!(rep, ReportError::Io(_)));
    assert!(rep.message().contains("I/O error"));
}

#[test]
fn template_error_message_round_trip() {
    let err = ReportError::Template("bad utf-8".into());
    assert!(err.message().contains("Template"));
    assert!(err.message().contains("bad utf-8"));
}

#[test]
fn display_distinguishes_variants() {
    let io = ReportError::Io(std::io::Error::other("disk full"));
    let tpl = ReportError::Template("x".into());
    // Display 文字列が variant ごとに異なるプレフィックスを持つこと
    assert_ne!(io.message(), tpl.message());
}
