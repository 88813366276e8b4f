//! The subscriber that `init_tracing` sets: an environment filter on a registry, built
//! through `tracing_subscriber`. Each value built here carries the record of what its
//! filter was built from; only the calls of this module make or change that record.

use tracing_subscriber::filter::{Builder, EnvFilter, LevelFilter};
use tracing_subscriber::layer::{Layered, SubscriberExt};
use tracing_subscriber::registry::Registry;
use tracing_subscriber::util::{SubscriberInitExt, TryInitError};
use vstd::prelude::*;

use crate::layers::directives::directives_parse_safely;

verus! {

#[verifier::external_type_specification]
#[verifier::external_body]
pub struct ExTryInitError(TryInitError);

#[verifier::external_type_specification]
#[verifier::external_body]
pub struct ExEnvFilterBuilder(Builder);

#[verifier::external_type_specification]
#[verifier::external_body]
pub struct ExEnvFilter(EnvFilter);

#[verifier::external_type_specification]
#[verifier::external_body]
pub struct ExRegistry(Registry);

#[verifier::external_type_specification]
#[verifier::external_body]
#[verifier::reject_recursive_types(L)]
#[verifier::reject_recursive_types(I)]
#[verifier::reject_recursive_types(S)]
pub struct ExLayered<L, I, S>(Layered<L, I, S>);

/// The most verbose level of events that a filter lets through.
#[derive(Clone, Copy, Debug, PartialEq, Eq, Structural)]
pub enum Verbosity {
    Off,
    Error,
    Warn,
    Info,
    Debug,
    Trace,
}

/// What the environment filter of the global subscriber was built from: the level it
/// falls back to where the directives give none, and the directives it parsed.
pub struct FilterConfig {
    pub default_level: Verbosity,
    pub directives: String,
}

/// An environment filter builder together with the default level it was given.
pub struct LevelledBuilder {
    builder: Builder,
    default_level: Verbosity,
}

/// An environment filter together with what it was built from.
pub struct ConfiguredFilter {
    filter: EnvFilter,
    config: FilterConfig,
}

/// A registry under an environment filter, together with what the filter was built from.
pub struct ConfiguredSubscriber {
    subscriber: Layered<EnvFilter, Registry>,
    config: FilterConfig,
}

impl LevelledBuilder {
    /// The default level the builder was given.
    pub closed spec fn spec_default_level(self) -> Verbosity {
        self.default_level
    }
}

impl ConfiguredFilter {
    /// What the filter was built from.
    pub closed spec fn spec_config(self) -> FilterConfig {
        self.config
    }
}

impl ConfiguredSubscriber {
    /// What the subscriber's filter was built from.
    pub closed spec fn spec_config(self) -> FilterConfig {
        self.config
    }
}

/// Calls `tracing_subscriber::filter::EnvFilter::builder`, which returns the builder's
/// defaults; nothing is claimed of the opaque builder.
#[verifier::external_body]
pub(crate) fn env_filter_builder() -> (res: Builder) {
    EnvFilter::builder()
}

/// Calls `Builder::with_default_directive` with the directive that enables `level`
/// (`LevelFilter` converted into a `Directive`), and keeps `level` beside the builder.
/// Claimed: the level kept is the level handed in.
#[verifier::external_body]
pub(crate) fn with_default_directive(builder: Builder, level: Verbosity) -> (res: LevelledBuilder)
    ensures
        res.spec_default_level() == level,
{
    let filter_level = match level {
        Verbosity::Off => LevelFilter::OFF,
        Verbosity::Error => LevelFilter::ERROR,
        Verbosity::Warn => LevelFilter::WARN,
        Verbosity::Info => LevelFilter::INFO,
        Verbosity::Debug => LevelFilter::DEBUG,
        Verbosity::Trace => LevelFilter::TRACE,
    };
    LevelledBuilder { builder: builder.with_default_directive(filter_level.into()), default_level: level }
}

/// Calls `Builder::parse_lossy` on the comma-separated directives `dirs`, which ignores
/// the directives that do not parse (writing a warning for each to stderr) and falls
/// back to the builder's default directive where none is left; the builder's default
/// level and `dirs` are kept beside the filter. `requires` leaves out the directives on
/// which the parser panics (see `directives`). Left unsaid: which events the filter
/// enables, which is `tracing_subscriber`'s to decide, and the panic of `eprintln!` where
/// stderr cannot be written, which depends on the process and not on the arguments.
#[verifier::external_body]
pub(crate) fn parse_lossy(builder: &LevelledBuilder, dirs: &str) -> (res: ConfiguredFilter)
    requires
        directives_parse_safely(dirs@),
    ensures
        res.spec_config().default_level == builder.spec_default_level(),
        res.spec_config().directives@ == dirs@,
{
    ConfiguredFilter {
        filter: builder.builder.parse_lossy(dirs),
        config: FilterConfig { default_level: builder.default_level, directives: dirs.to_string() },
    }
}

/// Calls `tracing_subscriber::registry()`, which returns an empty registry; nothing is
/// claimed of the opaque value.
#[verifier::external_body]
pub(crate) fn registry() -> (res: Registry) {
    tracing_subscriber::registry()
}

/// Calls `SubscriberExt::with` to put the filter on top of `registry`, keeping what the
/// filter was built from. Claimed: that record is passed on unchanged.
#[verifier::external_body]
pub(crate) fn registry_with(registry: Registry, filter: ConfiguredFilter) -> (res: ConfiguredSubscriber)
    ensures
        res.spec_config() == filter.spec_config(),
{
    ConfiguredSubscriber { subscriber: registry.with(filter.filter), config: filter.config }
}

/// The record that setting a subscriber as the global default hands back: whether that
/// reported success, and what the subscriber's filter was built from. Only `try_init`
/// makes one.
pub struct InstalledConfig {
    succeeded: bool,
    config: FilterConfig,
}

impl InstalledConfig {
    /// Whether setting the subscriber reported success.
    pub closed spec fn spec_succeeded(self) -> bool {
        self.succeeded
    }

    /// What the filter of the subscriber that was set was built from.
    pub closed spec fn spec_config(self) -> FilterConfig {
        self.config
    }

    pub(crate) fn succeeded(&self) -> (res: bool)
        ensures
            res == self.spec_succeeded(),
    {
        self.succeeded
    }

    pub(crate) fn default_level(&self) -> (res: Verbosity)
        ensures
            res == self.spec_config().default_level,
    {
        self.config.default_level
    }

    pub(crate) fn directives(&self) -> (res: &str)
        ensures
            res@ == self.spec_config().directives@,
    {
        self.config.directives.as_str()
    }
}

/// Calls `SubscriberInitExt::try_init`, which sets the subscriber as the global default,
/// and hands back its outcome together with a record of it. Whether it reports success
/// depends on what was set before in the process, so nothing is claimed of that; claimed:
/// the record holds whether that outcome was a success, and what the subscriber's filter
/// was built from.
#[verifier::external_body]
pub(crate) fn try_init(subscriber: ConfiguredSubscriber) -> (res: (
    Result<(), TryInitError>,
    InstalledConfig,
))
    ensures
        res.1.spec_config() == subscriber.spec_config(),
        res.1.spec_succeeded() == (res.0 is Ok),
{
    let outcome = subscriber.subscriber.try_init();
    let succeeded = outcome.is_ok();
    (outcome, InstalledConfig { succeeded, config: subscriber.config })
}

} // verus!
