//! Where the totem list is looked for by default.

use vstd::prelude::*;
use std::path::PathBuf;

verus! {

/// Directory, under the user's configuration directory, that holds the list.
pub const APP_DIR: &'static str = "totem";

/// File name of the totem list.
pub const CONFIG_FILE_NAME: &'static str = "totem.json";

#[verifier::external_type_specification]
#[verifier::external_body]
pub struct ExPathBuf(std::path::PathBuf);

/// Relies on std's `Path::join`: `base` with the relative `name` adjoined.
#[verifier::external_body]
fn join(base: &PathBuf, name: &str) -> PathBuf {
    base.join(name)
}

/// The default totem list under a configuration directory:
/// `<config_dir>/totem/totem.json`.
pub fn default_config_file(config_dir: &PathBuf) -> PathBuf {
    join(&join(config_dir, APP_DIR), CONFIG_FILE_NAME)
}

} // verus!
