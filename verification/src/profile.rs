//! Profile locations and harness-name resolution.
//!
//! A profile is a named directory of saved configuration for one
//! harness, kept under a per-harness subdirectory of the profiles root.
//! The filesystem work of listing, creating and deleting profile
//! directories is the caller's; this module computes the paths and
//! resolves user-typed harness names.

use vstd::prelude::*;

use crate::harness::{concat_str, HarnessKind};

verus! {

/// Computes where a harness's profiles live under one profiles root.
#[derive(Debug)]
pub struct ProfileManager {
    profiles_dir: String,
}

/// The directory name used for one harness under the profiles root.
pub open spec fn harness_id_spec(kind: HarnessKind) -> Seq<char> {
    match kind {
        HarnessKind::ClaudeCode => "claude_code"@,
        HarnessKind::OpenCode => "opencode"@,
        HarnessKind::Goose => "goose"@,
        _ => "unknown"@,
    }
}

impl View for ProfileManager {
    type V = Seq<char>;

    closed spec fn view(&self) -> Seq<char> {
        self.profiles_dir@
    }
}

impl ProfileManager {
    /// A manager rooted at the given profiles directory.
    pub fn new(profiles_dir: String) -> (r: ProfileManager)
        ensures
            r@ == profiles_dir@,
    {
        ProfileManager { profiles_dir }
    }

    /// The profiles root this manager was built with.
    pub fn profiles_dir(&self) -> (r: &String)
        ensures
            r@ == self@,
    {
        &self.profiles_dir
    }

    /// The directory name used for one harness under the profiles root.
    pub fn harness_id(kind: HarnessKind) -> (r: &'static str)
        ensures
            r@ == harness_id_spec(kind),
    {
        match kind {
            HarnessKind::ClaudeCode => "claude_code",
            HarnessKind::OpenCode => "opencode",
            HarnessKind::Goose => "goose",
            _ => "unknown",
        }
    }

    /// The directory of one named profile for one harness.
    pub fn profile_path(&self, kind: HarnessKind, name: &str) -> (r: String)
        ensures
            r@ == self@ + "/"@ + harness_id_spec(kind) + "/"@ + name@,
    {
        let mut p = concat_str(self.profiles_dir.as_str(), "/");
        p.append(Self::harness_id(kind));
        p.append("/");
        p.append(name);
        p
    }
}

/// The harness kind a user-typed name denotes, accepting the short
/// aliases; `None` for anything else.
pub open spec fn resolve_harness_spec(name: Seq<char>) -> Option<HarnessKind> {
    if name == "claude_code"@ || name == "cc"@ {
        Some(HarnessKind::ClaudeCode)
    } else if name == "opencode"@ || name == "oc"@ {
        Some(HarnessKind::OpenCode)
    } else if name == "goose"@ {
        Some(HarnessKind::Goose)
    } else {
        None
    }
}

/// Resolves a user-typed harness name, accepting the short aliases.
pub fn resolve_harness(name: &str) -> (r: Option<HarnessKind>)
    ensures
        r == resolve_harness_spec(name@),
{
    if crate::json::str_eq(name, "claude_code") || crate::json::str_eq(name, "cc") {
        Some(HarnessKind::ClaudeCode)
    } else if crate::json::str_eq(name, "opencode") || crate::json::str_eq(name, "oc") {
        Some(HarnessKind::OpenCode)
    } else if crate::json::str_eq(name, "goose") {
        Some(HarnessKind::Goose)
    } else {
        None
    }
}

/// Whether a profile name can be used as a directory name: non-empty,
/// free of path separators, and not a relative-directory name.
pub open spec fn valid_profile_name_spec(name: Seq<char>) -> bool {
    &&& name.len() > 0
    &&& forall|i: int| 0 <= i < name.len() ==> name[i] != '/' && name[i] != '\\'
    &&& name != "."@
    &&& name != ".."@
}

/// Whether a profile name can be used as a directory name.
pub fn valid_profile_name(name: &str) -> (r: bool)
    ensures
        r == valid_profile_name_spec(name@),
{
    let n = name.unicode_len();
    if n == 0 {
        return false;
    }
    if crate::json::str_eq(name, ".") || crate::json::str_eq(name, "..") {
        return false;
    }
    let mut i: usize = 0;
    while i < n
        invariant
            i <= n,
            n == name@.len(),
            forall|k: int| 0 <= k < i ==> name@[k] != '/' && name@[k] != '\\',
        decreases n - i,
    {
        let c = name.get_char(i);
        if c == '/' || c == '\\' {
            return false;
        }
        i = i + 1;
    }
    true
}

} // verus!
