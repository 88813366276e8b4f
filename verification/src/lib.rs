//! A span based profiler for programs instrumented with `tracing`.
//!
//! `init_tracing` sets, as the global subscriber, a registry under an environment
//! filter parsed from the directives it is handed (the value of `RUST_LOG`), with
//! `DEFAULT_LEVEL` where they give none; it adds no layer that prints, and it
//! succeeds whether or not a global subscriber was already set. It requires directives
//! on which the filter's parser makes no cut inside a character; `check_directives`
//! tests that (see `layers::directives` for the one step modelled from above).
//! `utils` converts the peak resident set size that the operating system reports into
//! mebibytes, and `test_utils` holds the directory that trace tests write to.

mod layers;
pub mod test_utils;
pub mod utils;

pub use layers::directives::{check_directives, is_whitespace};
pub use layers::subscriber::{FilterConfig, Verbosity};
pub use layers::init_tracing::{
    finish_init, init_tracing, Error, TracingGuard, DEFAULT_LEVEL,
};
