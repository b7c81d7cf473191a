//! The platforms a project or feature can declare support for.

use vstd::prelude::*;

verus! {

/// A target platform (operating system and architecture pair).
///
/// A feature lists the platforms it supports; an environment supports the
/// intersection of the platform sets of its features.
#[derive(Clone, Copy, Debug, PartialEq, Eq, Hash, Structural)]
pub enum Platform {
    Linux64,
    LinuxAarch64,
    Osx64,
    OsxArm64,
    Win64,
}

impl Platform {
    /// The canonical name of the platform, as it is written in a manifest.
    pub fn as_str(&self) -> (r: &'static str)
        ensures
            r@ == self.spec_str(),
    {
        match self {
            Platform::Linux64 => "linux-64",
            Platform::LinuxAarch64 => "linux-aarch64",
            Platform::Osx64 => "osx-64",
            Platform::OsxArm64 => "osx-arm64",
            Platform::Win64 => "win-64",
        }
    }

    /// What `as_str` returns for each platform.
    pub open spec fn spec_str(self) -> Seq<char> {
        match self {
            Platform::Linux64 => "linux-64"@,
            Platform::LinuxAarch64 => "linux-aarch64"@,
            Platform::Osx64 => "osx-64"@,
            Platform::OsxArm64 => "osx-arm64"@,
            Platform::Win64 => "win-64"@,
        }
    }
}

/// Whether the platform list `v` holds `p`, by a linear scan.
pub fn contains_platform(v: &Vec<Platform>, p: Platform) -> (r: bool)
    ensures
        r == v@.contains(p),
{
    let mut i: usize = 0;
    while i < v.len()
        invariant
            i <= v.len(),
            forall|j: int| 0 <= j < i ==> v@[j] != p,
        decreases v.len() - i,
    {
        if v[i] == p {
            proof {
                assert(v@[i as int] == p);
            }
            return true;
        }
        i += 1;
    }
    false
}

} // verus!
