use tracing_profile::test_utils::{PerfettoTestDir, TEST_DIR_NAME, TRACE_DIR_VAR};

#[test]
fn path_returns_recorded_path() {
    let dir = PerfettoTestDir::at(String::from("/tmp/tracing_profile_tests"));
    assert_eq!(dir.path(), "/tmp/tracing_profile_tests");
}

#[test]
fn empty_path_is_kept() {
    let dir = PerfettoTestDir::at(String::new());
    assert_eq!(dir.path(), "");
}

#[test]
fn directory_names() {
    assert_eq!(TEST_DIR_NAME, "tracing_profile_tests");
    assert_eq!(TRACE_DIR_VAR, "PERFETTO_TRACE_DIR");
}
