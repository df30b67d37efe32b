//! Where an application's configuration comes from, and what it says when it is up.

use vstd::prelude::*;

use crate::panel::{mount_path, normalize_path};
use crate::strs::{cat, cat3};

verus! {

/// The prefix of the environment variables that override the configuration
/// (`LAT__SECTION__KEY`), where an application does not set its own.
pub const DEFAULT_ENV_PREFIX: &'static str = "LAT";

/// Where an application's configuration is loaded from.
pub struct Bootstrap {
    pub config_dir: String,
    pub env_prefix: String,
}

impl Bootstrap {
    /// Loads from `config_dir`, with overrides under [`DEFAULT_ENV_PREFIX`].
    pub fn new(config_dir: &str) -> (r: Bootstrap)
        ensures
            r.config_dir@ == config_dir@,
            r.env_prefix@ == DEFAULT_ENV_PREFIX@,
    {
        Bootstrap {
            config_dir: config_dir.to_owned(),
            env_prefix: DEFAULT_ENV_PREFIX.to_owned(),
        }
    }

    /// Takes overrides under another prefix.
    pub fn env_prefix(self, prefix: &str) -> (r: Bootstrap)
        ensures
            r.config_dir@ == self.config_dir@,
            r.env_prefix@ == prefix@,
    {
        let mut it: Self = self;
        it.env_prefix = prefix.to_owned();
        it
    }
}

/// The line an application prints once it listens: its name, and where its panel is.
pub fn banner(name: &str, base: &str, path: &str) -> (r: String)
    ensures
        r@ == name@ + " on "@ + base@ + mount_path(path@),
{
    cat(cat3(name, " on ", base).as_str(), normalize_path(path).as_str())
}

} // verus!
