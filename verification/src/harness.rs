//! The closed set of supported harnesses and the scope a configuration
//! lives in.

use vstd::prelude::*;

verus! {

/// One supported assistant program ("harness").
#[derive(Clone, Copy, Debug, PartialEq, Eq, Structural)]
pub enum HarnessKind {
    ClaudeCode,
    OpenCode,
    Goose,
    Crush,
    Droid,
    AmpCode,
    CopilotCli,
}

/// Where a harness's configuration lives. `Global` carries the user-level
/// configuration root (e.g. `~/.config`), resolved by the caller.
#[derive(Clone, Debug)]
pub enum Scope {
    /// User-level configuration, under the given configuration root.
    Global(String),
    /// Project-local configuration, under the given project root.
    Project(String),
    /// An explicit directory.
    Custom(String),
}

/// The two strings, concatenated.
pub fn concat_str(a: &str, b: &str) -> (r: String)
    ensures
        r@ == a@ + b@,
{
    let mut s = String::from_str(a);
    s.append(b);
    s
}

} // verus!
