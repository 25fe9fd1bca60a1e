//! The command surface of the command-line tool, as plain data.
//!
//! The argument parser lives outside the library; it hands over one of
//! these values, and the library's callers dispatch on it.

use vstd::prelude::*;

verus! {

/// One top-level command.
#[derive(Debug)]
pub enum Commands {
    /// Show status of all harnesses.
    Status,
    /// Initialize the configuration directory.
    Init,
    /// Manage profiles.
    Profile(ProfileCommands),
    /// Launch the terminal UI.
    Tui,
}

/// One profile-management subcommand, each naming its harness.
#[derive(Debug)]
pub enum ProfileCommands {
    /// List profiles for a harness.
    List { harness: String },
    /// Show details of one profile.
    Show { harness: String, name: String },
    /// Create a new profile.
    Create { harness: String, name: String },
    /// Delete a profile.
    Delete { harness: String, name: String },
    /// Switch to a profile.
    Switch { harness: String, name: String },
}

} // verus!
