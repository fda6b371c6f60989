//! The configuration provider handle: it names the directory whose
//! documents are loaded into site configurations. Reading the directory
//! and watching it for changes are the driver's work; a reload builds a
//! fresh configuration snapshot and swaps it in whole, never mutating a
//! snapshot in place.

use vstd::prelude::*;

verus! {

#[verifier::external_type_specification]
#[verifier::external_body]
pub struct ExPathBuf(std::path::PathBuf);

/// Names the configuration directory.
#[derive(Debug)]
pub struct ConfigWatcher {
    /// The directory whose documents hold the site configurations.
    pub config_dir: std::path::PathBuf,
}

impl ConfigWatcher {
    /// A watcher over the given configuration directory.
    pub fn new(config_dir: std::path::PathBuf) -> (r: ConfigWatcher)
        ensures
            r.config_dir == config_dir,
    {
        ConfigWatcher { config_dir }
    }
}

} // verus!
