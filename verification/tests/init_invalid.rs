use tracing::level_filters::LevelFilter;
use tracing_profile::init_tracing;

#[test]
fn invalid_directives_are_ignored() {
    let guard = init_tracing("[,=x,").unwrap();
    assert!(guard.installed());
    assert_eq!(guard.directives(), "[,=x,");
    assert_eq!(LevelFilter::current(), LevelFilter::DEBUG);
}
