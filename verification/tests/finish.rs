use tracing_profile::{finish_init, FilterConfig, Verbosity};
use tracing_subscriber::util::SubscriberInitExt;

fn config() -> FilterConfig {
    FilterConfig { default_level: Verbosity::Info, directives: String::from("my_crate=trace") }
}

#[test]
fn finish_init_on_success_records_installation() {
    let guard = finish_init(Ok(()), config()).unwrap();
    assert!(guard.installed());
    assert_eq!(guard.default_level(), Verbosity::Info);
    assert_eq!(guard.directives(), "my_crate=trace");
}

#[test]
fn finish_init_on_failure_is_still_ok() {
    // The first call may or may not succeed depending on what ran before in this
    // process; the second one always finds a global subscriber already set.
    let _ = tracing_subscriber::registry().try_init();
    let outcome = tracing_subscriber::registry().try_init();
    assert!(outcome.is_err());
    let guard = finish_init(outcome, config()).unwrap();
    assert!(!guard.installed());
    assert_eq!(guard.default_level(), Verbosity::Info);
}
