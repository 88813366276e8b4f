use tracing::level_filters::LevelFilter;
use tracing_profile::init_tracing;

#[test]
fn info_directive_overrides_default() {
    let guard = init_tracing("info").unwrap();
    assert!(guard.installed());
    assert_eq!(LevelFilter::current(), LevelFilter::INFO);
}
