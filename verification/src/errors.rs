//! Fatal error taxonomy of the launcher core.
//!
//! Every failure in this crate is fatal for the surrounding tool: the caller
//! reports the diagnostic and exits. Nothing here is retried.

use vstd::prelude::*;
use vstd::string::*;

verus! {

/// One of the three filesystem artifacts the bootstrap must guarantee.
#[derive(Clone, Copy, Debug, PartialEq, Eq, Structural)]
pub enum Artifact {
    /// The storage directory itself.
    Directory,
    /// The configuration file inside the storage directory.
    ConfigFile,
    /// The links catalog file inside the storage directory.
    LinksFile,
}

/// A condition that aborts the run; never recovered internally.
#[derive(Clone, Copy, Debug, PartialEq, Eq, Structural)]
pub enum FatalError {
    /// Neither environment fallback yields a usable storage location.
    UnresolvableLocation,
    /// Creating the named artifact failed (permissions, missing parent,
    /// or a creation race lost to a concurrent invocation).
    Bootstrap { failed: Artifact },
    /// A file could not be read back after a successful bootstrap.
    ReadFailure { unreadable: Artifact },
}

impl FatalError {
    /// A human-readable diagnostic for the top-level handler to print.
    pub fn message(&self) -> (m: String)
        ensures
            *self == FatalError::UnresolvableLocation ==> m@
                == "cannot determine a configuration directory: neither the configuration-home nor the home-directory variable is set"@,
            *self == (FatalError::Bootstrap { failed: Artifact::Directory }) ==> m@
                == "cannot create the storage directory"@,
            *self == (FatalError::Bootstrap { failed: Artifact::ConfigFile }) ==> m@
                == "cannot create the configuration file"@,
            *self == (FatalError::Bootstrap { failed: Artifact::LinksFile }) ==> m@
                == "cannot create the links file"@,
            *self == (FatalError::ReadFailure { unreadable: Artifact::Directory }) ==> m@
                == "cannot read the storage directory"@,
            *self == (FatalError::ReadFailure { unreadable: Artifact::ConfigFile }) ==> m@
                == "cannot read the configuration file"@,
            *self == (FatalError::ReadFailure { unreadable: Artifact::LinksFile }) ==> m@
                == "cannot read the links file"@,
    {
        match self {
            FatalError::UnresolvableLocation => String::from_str(
                "cannot determine a configuration directory: neither the configuration-home nor the home-directory variable is set",
            ),
            FatalError::Bootstrap { failed: Artifact::Directory } => String::from_str(
                "cannot create the storage directory",
            ),
            FatalError::Bootstrap { failed: Artifact::ConfigFile } => String::from_str(
                "cannot create the configuration file",
            ),
            FatalError::Bootstrap { failed: Artifact::LinksFile } => String::from_str(
                "cannot create the links file",
            ),
            FatalError::ReadFailure { unreadable: Artifact::Directory } => String::from_str(
                "cannot read the storage directory",
            ),
            FatalError::ReadFailure { unreadable: Artifact::ConfigFile } => String::from_str(
                "cannot read the configuration file",
            ),
            FatalError::ReadFailure { unreadable: Artifact::LinksFile } => String::from_str(
                "cannot read the links file",
            ),
        }
    }
}

} // verus!
