//! The plain command descriptions the library receives from the command
//! line: which vault file to create or open.  Argument parsing itself
//! lives outside the library and hands these over resolved.

use vstd::prelude::*;

verus! {

/// The request to create a fresh vault file.
pub struct New {
    /// File name for the new vault.
    pub database_name: String,
    /// Full path for the file, if the caller resolved one.
    pub path: Option<String>,
}

/// The request to open an existing vault file.
pub struct Open {
    /// File name of the existing vault.
    pub database_name: String,
    /// Full path for the file, if the caller resolved one.
    pub path: Option<String>,
}

} // verus!
