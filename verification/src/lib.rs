//! Verified core of a profile-based package manager: a bundled package
//! registry kept in sync with a local cache by version comparison, package
//! definition lookup, transitive dependency resolution, and profile
//! mutation with deterministic on-disk ordering.
//!
//! All file reading and writing, TOML (de)serialization of whole documents,
//! command-line parsing and terminal output live outside this library; the
//! functions here take the file contents or parsed records as plain values
//! and return the values to persist or display.

pub mod cli;
pub mod config;
pub mod error;
pub mod profile;
pub mod registry;
pub mod resolver;
pub mod text;

use vstd::prelude::*;

use crate::cli::{Action, Cli, Commands};
use crate::registry::clone_opt_string;

verus! {

/// The profile an optional command-line argument names: the argument
/// itself when given, else the configured default profile.
pub open spec fn spec_resolved_name(arg: Option<String>, default_profile: Seq<char>) -> Seq<char> {
    match arg {
        Some(p) => p@,
        None => default_profile,
    }
}

/// Resolves an optional profile argument against the configured default.
pub fn resolve_profile_name(profile_arg: &Option<String>, default_profile: &str) -> (r: String)
    ensures
        r@ == spec_resolved_name(*profile_arg, default_profile@),
{
    match profile_arg {
        Some(p) => p.clone(),
        None => default_profile.to_owned(),
    }
}

/// Maps an invocation to the action the program performs, resolving every
/// optional profile argument to the configured default profile.
pub fn run(cli: &Cli, default_profile: &str) -> (a: Action)
    ensures
        match cli.command {
            Commands::Create { profile, default } => a matches Action::CreateProfile {
                profile: p,
                make_default: d,
            } && p@ == profile@ && d == default,
            Commands::Delete { profile } => a matches Action::DeleteProfile { profile: p } && p@
                == profile@,
            Commands::Show { profile } => a matches Action::ShowProfile { profile: p } && p@
                == spec_resolved_name(profile, default_profile@),
            Commands::List => a is ListProfiles,
            Commands::Add { package, profile } => a matches Action::AddPackage {
                profile: p,
                package: k,
            } && p@ == spec_resolved_name(profile, default_profile@) && k@ == package@,
            Commands::Remove { package, profile } => a matches Action::RemovePackage {
                profile: p,
                package: k,
            } && p@ == spec_resolved_name(profile, default_profile@) && k@ == package@,
            Commands::ListPackages { query } => a matches Action::ListPackages { query: q } && q
                == query,
            Commands::Export { profile, file } => a matches Action::ExportProfile {
                profile: p,
                file: f,
            } && p@ == spec_resolved_name(profile, default_profile@) && f == file,
            Commands::Import { file } => a matches Action::ImportProfile { file: f } && f@
                == file@,
            Commands::Install { profile } => a matches Action::InstallProfile { profile: p } && p@
                == spec_resolved_name(profile, default_profile@),
            Commands::SetDefault { profile } => a matches Action::SetDefaultProfile {
                profile: p,
            } && p@ == profile@,
        },
{
    match &cli.command {
        Commands::Create { profile, default } => Action::CreateProfile {
            profile: profile.clone(),
            make_default: *default,
        },
        Commands::Delete { profile } => Action::DeleteProfile { profile: profile.clone() },
        Commands::Show { profile } => Action::ShowProfile {
            profile: resolve_profile_name(profile, default_profile),
        },
        Commands::List => Action::ListProfiles,
        Commands::Add { package, profile } => Action::AddPackage {
            profile: resolve_profile_name(profile, default_profile),
            package: package.clone(),
        },
        Commands::Remove { package, profile } => Action::RemovePackage {
            profile: resolve_profile_name(profile, default_profile),
            package: package.clone(),
        },
        Commands::ListPackages { query } => Action::ListPackages {
            query: clone_opt_string(query),
        },
        Commands::Export { profile, file } => Action::ExportProfile {
            profile: resolve_profile_name(profile, default_profile),
            file: clone_opt_string(file),
        },
        Commands::Import { file } => Action::ImportProfile { file: file.clone() },
        Commands::Install { profile } => Action::InstallProfile {
            profile: resolve_profile_name(profile, default_profile),
        },
        Commands::SetDefault { profile } => Action::SetDefaultProfile {
            profile: profile.clone(),
        },
    }
}

} // verus!
