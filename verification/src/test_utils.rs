//! Support for tests that write Perfetto traces: the directory they write into.

use vstd::prelude::*;

verus! {

/// The name of the directory, inside the system's temporary directory, that trace tests
/// write into.
pub const TEST_DIR_NAME: &'static str = "tracing_profile_tests";

/// The environment variable that tells the Perfetto layer where to write its traces.
pub const TRACE_DIR_VAR: &'static str = "PERFETTO_TRACE_DIR";

/// The file, in the working directory, where the path of the last Perfetto trace is kept.
pub const LAST_TRACE_PATH_FILE: &'static str = ".last_perfetto_trace_path";

/// The directory that a trace test writes its traces into. Whoever makes one sets up
/// the directory and points `PERFETTO_TRACE_DIR` at it; this value records the path.
pub struct PerfettoTestDir {
    path: String,
}

impl View for PerfettoTestDir {
    type V = Seq<char>;

    closed spec fn view(&self) -> Seq<char> {
        self.path@
    }
}

impl PerfettoTestDir {
    /// Records the directory at `path`.
    pub fn at(path: String) -> (dir: Self)
        ensures
            dir@ == path@,
    {
        PerfettoTestDir { path }
    }

    /// Returns the path to the test directory.
    pub fn path(&self) -> (path: &str)
        ensures
            path@ == self@,
    {
        self.path.as_str()
    }
}

} // verus!
