//! Application-level configuration loaded at process start.
//!
//! Only the value itself lives here; reading and writing the on-disk JSON
//! file is the caller's concern.

use vstd::prelude::*;

verus! {

/// Settings that the surrounding application reads at startup.
#[derive(Clone, Copy, Debug, PartialEq, Eq, Structural)]
pub struct AppConfig {
    /// Whether log output should additionally be written to a file.
    pub log_to_file: bool,
}

impl Default for AppConfig {
    /// The built-in configuration used when no file is present.
    fn default() -> (c: Self)
        ensures
            !c.log_to_file,
    {
        AppConfig { log_to_file: false }
    }
}

} // verus!
