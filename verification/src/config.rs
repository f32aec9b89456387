//! Settings of a run.

use vstd::prelude::*;

verus! {

/// Configuration for a run of the compile-fail tests.
#[derive(Debug, Clone)]
pub struct Config {
    /// Path to the directory containing the compile-fail tests.
    ///
    /// By default, `tests/compile-fail` is searched.
    pub cfail_path: String,
    /// Path to the integration test that invokes the runner.
    ///
    /// By convention, this is `tests/compile-fail.rs`.
    pub wrapper_test: &'static str,
    /// If this is set to `true`, nothing is meant for the console: the
    /// report is held back and handed over with the final result.
    pub no_console_output: bool,
}

impl Default for Config {
    fn default() -> (config: Self)
        ensures
            config.cfail_path@ == "tests/compile-fail"@,
            config.wrapper_test@ == "tests/compile-fail.rs"@,
            !config.no_console_output,
    {
        Config {
            cfail_path: "tests/compile-fail".to_owned(),
            wrapper_test: "tests/compile-fail.rs",
            no_console_output: false,
        }
    }
}

} // verus!
