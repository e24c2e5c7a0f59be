//! Where the preferences are stored.

use vstd::prelude::*;
use crate::paths::{join_path, path_join};

verus! {

/// Stores the preferences as JSON.
pub struct SettingsStorage;

/// The settings file: `tidy-cleaner/config.json` under the configuration
/// directory.
pub open spec fn config_file(config_dir: Seq<char>) -> Seq<char> {
    path_join(path_join(config_dir, "tidy-cleaner"@), "config.json"@)
}

/// The temporary file a save writes before renaming it over the settings
/// file (`Path::with_extension("json.tmp")` of `config.json`).
pub open spec fn temp_config_file(config_dir: Seq<char>) -> Seq<char> {
    path_join(path_join(config_dir, "tidy-cleaner"@), "config.json.tmp"@)
}

impl SettingsStorage {
    /// The settings file under the configuration directory.
    pub fn config_path(config_dir: &str) -> (r: String)
        ensures
            r@ == config_file(config_dir@),
    {
        let dir = join_path(config_dir, "tidy-cleaner");
        join_path(dir.as_str(), "config.json")
    }

    /// The temporary file of a save.
    pub fn temp_path(config_dir: &str) -> (r: String)
        ensures
            r@ == temp_config_file(config_dir@),
    {
        let dir = join_path(config_dir, "tidy-cleaner");
        join_path(dir.as_str(), "config.json.tmp")
    }
}

} // verus!
