//! Failure reasons for the operations of this library, each rendering the
//! exact line the command layer shows the user.

use vstd::prelude::*;
use vstd::string::StringExecFns;

verus! {

/// Why an operation was refused. Reading, writing and parsing failures are
/// reported by the layer that does the reading; the reasons here are the
/// ones the core logic itself decides.
#[derive(Debug, PartialEq, Eq)]
pub enum Error {
    /// A profile that was asked for does not exist.
    ProfileNotFound { name: String },
    /// A package name was looked up but is absent from the registry.
    PackageNotFound { name: String },
    /// A profile with this name already exists, so it cannot be created.
    ProfileAlreadyExists { name: String },
    /// The configured default profile is protected from deletion.
    ProtectedDefault { name: String },
    /// The bundled registry carries no version field; the shipped asset is
    /// broken, which is fatal.
    BundledRegistryMissingVersion,
}

impl Error {
    /// The message for this failure, exactly as the user sees it.
    pub fn message(&self) -> (r: String)
        ensures
            r@ == self.spec_message(),
    {
        match self {
            Error::ProfileNotFound { name } => {
                let mut m = "Profile '".to_owned();
                m.append(name.as_str());
                m.append("' does not exist.");
                m
            },
            Error::PackageNotFound { name } => {
                let mut m = "Package '".to_owned();
                m.append(name.as_str());
                m.append("' not found in registry");
                m
            },
            Error::ProfileAlreadyExists { name } => {
                let mut m = "Profile '".to_owned();
                m.append(name.as_str());
                m.append("' already exists");
                m
            },
            Error::ProtectedDefault { name } => {
                let mut m = "Cannot delete the default profile '".to_owned();
                m.append(name.as_str());
                m.append("'");
                m
            },
            Error::BundledRegistryMissingVersion => {
                "Bundled registry missing 'version' field".to_owned()
            },
        }
    }

    /// The characters of the message each variant renders.
    pub open spec fn spec_message(self) -> Seq<char> {
        match self {
            Error::ProfileNotFound { name } => "Profile '"@ + name@ + "' does not exist."@,
            Error::PackageNotFound { name } => "Package '"@ + name@ + "' not found in registry"@,
            Error::ProfileAlreadyExists { name } => "Profile '"@ + name@ + "' already exists"@,
            Error::ProtectedDefault { name } => "Cannot delete the default profile '"@ + name@
                + "'"@,
            Error::BundledRegistryMissingVersion => "Bundled registry missing 'version' field"@,
        }
    }
}

} // verus!
