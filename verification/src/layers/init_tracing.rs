use tracing_subscriber::util::TryInitError;
use vstd::prelude::*;

use crate::layers::directives::directives_parse_safely;
use crate::layers::subscriber::{
    env_filter_builder, parse_lossy, registry, registry_with, try_init, with_default_directive,
    FilterConfig, InstalledConfig, Verbosity,
};

verus! {

/// The level that the filter falls back to where the environment gives no directive.
pub const DEFAULT_LEVEL: Verbosity = Verbosity::Debug;

/// Why the tracing could not be initialized.
#[derive(Debug)]
pub enum Error {
    /// The global subscriber could not be set.
    TryInit(TryInitError),
}

/// What a guard records of the filter: a record handed in, or the record that setting
/// the subscriber handed back.
enum GuardRecord {
    Given(FilterConfig),
    Installed(InstalledConfig),
}

/// Handed back by `init_tracing`: records whether setting the global subscriber reported
/// success and what its filter was built from. Dropping it changes nothing.
pub struct TracingGuard {
    installed: bool,
    record: GuardRecord,
}

impl TracingGuard {
    /// Whether setting the global subscriber reported success. It reports a failure where
    /// a global subscriber was set before, and also where a `log` logger was set before,
    /// in which case the subscriber may have been set all the same.
    pub closed spec fn is_installed(self) -> bool {
        self.installed
    }

    /// The record that setting the subscriber handed back, where the guard holds one.
    pub closed spec fn spec_installation(self) -> Option<InstalledConfig> {
        match self.record {
            GuardRecord::Given(_) => None,
            GuardRecord::Installed(ic) => Some(ic),
        }
    }

    /// What the filter was built from.
    pub closed spec fn spec_config(self) -> FilterConfig {
        match self.record {
            GuardRecord::Given(c) => c,
            GuardRecord::Installed(ic) => ic.spec_config(),
        }
    }

    /// The level that the installed filter falls back to.
    pub closed spec fn spec_default_level(self) -> Verbosity {
        self.spec_config().default_level
    }

    /// The directives that the installed filter parsed.
    pub closed spec fn spec_directives(self) -> Seq<char> {
        self.spec_config().directives@
    }

    pub fn installed(&self) -> (res: bool)
        ensures
            res == self.is_installed(),
    {
        self.installed
    }

    pub fn default_level(&self) -> (res: Verbosity)
        ensures
            res == self.spec_default_level(),
    {
        match &self.record {
            GuardRecord::Given(c) => c.default_level,
            GuardRecord::Installed(ic) => ic.default_level(),
        }
    }

    pub fn directives(&self) -> (res: &str)
        ensures
            res@ == self.spec_directives(),
    {
        match &self.record {
            GuardRecord::Given(c) => c.directives.as_str(),
            GuardRecord::Installed(ic) => ic.directives(),
        }
    }
}

/// Turns the outcome of setting the global subscriber into the result of the
/// initialization: a reported failure is no failure of the initialization, so the
/// result is `Ok` whatever the outcome was. The guard records whether the outcome was
/// a success, and the filter's record `config`.
pub fn finish_init(installation: Result<(), TryInitError>, config: FilterConfig) -> (res: Result<
    TracingGuard,
    Error,
>)
    ensures
        res is Ok,
        res matches Ok(guard) && {
            &&& guard.is_installed() == (installation is Ok)
            &&& guard.spec_default_level() == config.default_level
            &&& guard.spec_directives() == config.directives@
        },
{
    match installation {
        Ok(()) => Ok(TracingGuard { installed: true, record: GuardRecord::Given(config) }),
        Err(_) => Ok(TracingGuard { installed: false, record: GuardRecord::Given(config) }),
    }
}

/// The guard for the record that setting the subscriber handed back; a reported failure
/// is no failure of the initialization.
fn finish_installation(installation: InstalledConfig) -> (res: Result<TracingGuard, Error>)
    ensures
        res matches Ok(guard) && {
            &&& guard.spec_installation() == Some(installation)
            &&& guard.is_installed() == installation.spec_succeeded()
        },
{
    let installed = installation.succeeded();
    Ok(TracingGuard { installed, record: GuardRecord::Installed(installation) })
}

/// Initializes the tracing: a registry under an environment filter is set as the global
/// subscriber. The filter is parsed from `env_directives`, the value of the `RUST_LOG`
/// environment variable (empty where it is unset), and falls back to `DEFAULT_LEVEL`
/// where those give no directive. Succeeds also where a global subscriber was already
/// set. The guard holds the record that setting the subscriber handed back: whether it
/// reported success, and the default level and directives of that subscriber's filter.
pub fn init_tracing(env_directives: &str) -> (res: Result<TracingGuard, Error>)
    requires
        directives_parse_safely(env_directives@),
    ensures
        res is Ok,
        res matches Ok(guard) && {
            &&& guard.spec_installation() matches Some(ic) && {
                &&& ic.spec_config().default_level == DEFAULT_LEVEL
                &&& ic.spec_config().directives@ == env_directives@
                &&& guard.is_installed() == ic.spec_succeeded()
            }
            &&& guard.spec_default_level() == DEFAULT_LEVEL
            &&& guard.spec_directives() == env_directives@
        },
{
    let builder = with_default_directive(env_filter_builder(), DEFAULT_LEVEL);
    let filter = parse_lossy(&builder, env_directives);
    let subscriber = registry_with(registry(), filter);
    let (_outcome, installation) = try_init(subscriber);
    finish_installation(installation)
}

} // verus!
