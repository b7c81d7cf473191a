//! Minimal system requirements a feature can declare, and their union.

use vstd::prelude::*;

verus! {

/// A version as a pair of numeric components, ordered lexicographically.
#[derive(Clone, Copy, Debug, PartialEq, Eq, Structural)]
pub struct Version {
    pub major: u64,
    pub minor: u64,
}

impl Version {
    /// Lexicographic order on (major, minor).
    pub open spec fn spec_ge(self, other: Version) -> bool {
        self.major > other.major || (self.major == other.major && self.minor >= other.minor)
    }
}

/// The numerically higher of two versions.
pub open spec fn spec_version_max(a: Version, b: Version) -> Version {
    if a.spec_ge(b) {
        a
    } else {
        b
    }
}

/// The more restrictive of two optional minimum versions: the higher one, or
/// whichever is present.
pub open spec fn spec_opt_version_max(a: Option<Version>, b: Option<Version>) -> Option<
    Version,
> {
    match (a, b) {
        (Some(x), Some(y)) => Some(spec_version_max(x, y)),
        (Some(x), None) => Some(x),
        (None, y) => y,
    }
}

/// The more restrictive of two optional flags: required when either side
/// requires it.
pub open spec fn spec_opt_flag_or(a: Option<bool>, b: Option<bool>) -> Option<bool> {
    match (a, b) {
        (Some(x), Some(y)) => Some(x || y),
        (Some(x), None) => Some(x),
        (None, y) => y,
    }
}

/// The system requirements of a feature: optional minimum versions of
/// platform facilities and optional required capability flags.
///
/// The union of two records is defined field-wise and takes the more
/// restrictive side (the numerically higher version, the or of the flags),
/// so it is total: declarations that would be contradictory are rejected
/// when the manifest is validated, before composition runs.
#[derive(Clone, Copy, Debug, PartialEq, Eq, Structural)]
pub struct SystemRequirements {
    /// Minimum Linux kernel version.
    pub linux: Option<Version>,
    /// Minimum macOS version.
    pub macos: Option<Version>,
    /// Minimum glibc version.
    pub glibc: Option<Version>,
    /// Minimum CUDA version.
    pub cuda: Option<Version>,
    /// Whether a Unix-like system is required.
    pub unix: Option<bool>,
}

/// The field-wise union of two requirement records.
pub open spec fn spec_sysreq_union(a: SystemRequirements, b: SystemRequirements) -> SystemRequirements {
    SystemRequirements {
        linux: spec_opt_version_max(a.linux, b.linux),
        macos: spec_opt_version_max(a.macos, b.macos),
        glibc: spec_opt_version_max(a.glibc, b.glibc),
        cuda: spec_opt_version_max(a.cuda, b.cuda),
        unix: spec_opt_flag_or(a.unix, b.unix),
    }
}

/// The permissive identity record: no requirement on any field.
pub open spec fn spec_sysreq_empty() -> SystemRequirements {
    SystemRequirements { linux: None, macos: None, glibc: None, cuda: None, unix: None }
}

fn opt_version_max(a: Option<Version>, b: Option<Version>) -> (r: Option<Version>)
    ensures
        r == spec_opt_version_max(a, b),
{
    match (a, b) {
        (Some(x), Some(y)) => {
            if x.major > y.major || (x.major == y.major && x.minor >= y.minor) {
                Some(x)
            } else {
                Some(y)
            }
        },
        (Some(x), None) => Some(x),
        (None, y) => y,
    }
}

fn opt_flag_or(a: Option<bool>, b: Option<bool>) -> (r: Option<bool>)
    ensures
        r == spec_opt_flag_or(a, b),
{
    match (a, b) {
        (Some(x), Some(y)) => Some(x || y),
        (Some(x), None) => Some(x),
        (None, y) => y,
    }
}

impl SystemRequirements {
    /// The record with no requirement on any field. This is the identity of
    /// [`SystemRequirements::union`].
    pub fn none() -> (r: SystemRequirements)
        ensures
            r == spec_sysreq_empty(),
    {
        SystemRequirements { linux: None, macos: None, glibc: None, cuda: None, unix: None }
    }

    /// The field-wise union of two records, taking the more restrictive
    /// value of each field.
    pub fn union(&self, other: &SystemRequirements) -> (r: SystemRequirements)
        ensures
            r == spec_sysreq_union(*self, *other),
    {
        SystemRequirements {
            linux: opt_version_max(self.linux, other.linux),
            macos: opt_version_max(self.macos, other.macos),
            glibc: opt_version_max(self.glibc, other.glibc),
            cuda: opt_version_max(self.cuda, other.cuda),
            unix: opt_flag_or(self.unix, other.unix),
        }
    }
}

impl Default for SystemRequirements {
    /// The default record requires nothing.
    fn default() -> (r: SystemRequirements)
        ensures
            r == spec_sysreq_empty(),
    {
        SystemRequirements { linux: None, macos: None, glibc: None, cuda: None, unix: None }
    }
}

} // verus!
