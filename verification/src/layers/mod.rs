pub mod directives;
pub mod init_tracing;
pub mod subscriber;
