//! The configuration record: which profile is the default. The record is
//! persisted as a small file; reading and writing it happens outside this
//! library, which receives the parsed record (or nothing, when the file is
//! missing or unreadable) and decides the rest.

use vstd::prelude::*;
use vstd::string::StringExecFns;

use crate::error::Error;

verus! {

/// The persisted configuration.
pub struct Config {
    pub default_profile: String,
}

impl Default for Config {
    /// A fresh configuration names the built-in default profile.
    fn default() -> (c: Config)
        ensures
            c.default_profile@ == "default"@,
    {
        Config { default_profile: "default".to_owned() }
    }
}

/// The default profile a possibly-unreadable configuration names: a
/// missing or unparsable configuration falls back to the built-in name.
pub open spec fn spec_default_profile(config: Option<Config>) -> Seq<char> {
    match config {
        Some(c) => c.default_profile@,
        None => "default"@,
    }
}

/// The name of the default profile, from the configuration if one could
/// be read, else the built-in name.
pub fn get_default_profile(config: &Option<Config>) -> (r: String)
    ensures
        r@ == spec_default_profile(*config),
{
    match config {
        Some(c) => c.default_profile.clone(),
        None => "default".to_owned(),
    }
}

/// Changes the configured default profile. Refused, leaving the
/// configuration untouched, when no profile of that name exists.
pub fn set_default_profile(config: &mut Config, profile_name: &str, profile_exists: bool) -> (r:
    Result<(), Error>)
    ensures
        profile_exists ==> r is Ok && final(config).default_profile@ == profile_name@,
        !profile_exists ==> (r matches Err(e) && e matches Error::ProfileNotFound { name } && name@
            == profile_name@) && *final(config) == *old(config),
{
    if !profile_exists {
        return Err(Error::ProfileNotFound { name: profile_name.to_owned() });
    }
    config.default_profile = profile_name.to_owned();
    Ok(())
}

/// Path of the configuration file below the configuration directory.
pub fn config_file_path(config_dir: &str) -> (r: String)
    ensures
        r@ == config_dir@ + "/"@ + "config.toml"@,
{
    let mut r = config_dir.to_owned();
    r.append("/");
    r.append("config.toml");
    r
}

} // verus!
