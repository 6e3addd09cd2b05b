//! The command-line surface as plain data: what was asked on the command
//! line, and the action the program is to perform. Argument parsing and
//! the execution of actions happen outside this library.

use vstd::prelude::*;

verus! {

/// A parsed command-line invocation.
pub struct Cli {
    pub command: Commands,
}

/// The subcommands, with their arguments as parsed. A missing profile
/// argument means "the configured default profile".
pub enum Commands {
    Create { profile: String, default: bool },
    Delete { profile: String },
    Show { profile: Option<String> },
    List,
    Add { package: String, profile: Option<String> },
    Remove { package: String, profile: Option<String> },
    ListPackages { query: Option<String> },
    Export { profile: Option<String>, file: Option<String> },
    Import { file: String },
    Install { profile: Option<String> },
    SetDefault { profile: String },
}

/// The operation the program performs for an invocation, with every
/// profile argument resolved to a concrete profile name.
pub enum Action {
    CreateProfile { profile: String, make_default: bool },
    DeleteProfile { profile: String },
    ShowProfile { profile: String },
    ListProfiles,
    AddPackage { profile: String, package: String },
    RemovePackage { profile: String, package: String },
    ListPackages { query: Option<String> },
    ExportProfile { profile: String, file: Option<String> },
    ImportProfile { file: String },
    InstallProfile { profile: String },
    SetDefaultProfile { profile: String },
}

} // verus!
