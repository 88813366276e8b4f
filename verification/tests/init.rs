use tracing::level_filters::LevelFilter;
use tracing_profile::{init_tracing, Verbosity, DEFAULT_LEVEL};

#[test]
fn init_twice_succeeds_and_installs_once() {
    let first = init_tracing("").unwrap();
    assert!(first.installed());
    assert_eq!(first.default_level(), Verbosity::Debug);
    assert_eq!(DEFAULT_LEVEL, Verbosity::Debug);
    assert_eq!(first.directives(), "");
    // With no directive, the filter lets DEBUG and more severe through, and not TRACE.
    assert_eq!(LevelFilter::current(), LevelFilter::DEBUG);
    let second = init_tracing("info");
    assert!(second.is_ok());
    let second = second.unwrap();
    assert!(!second.installed());
    assert_eq!(second.directives(), "info");
}
