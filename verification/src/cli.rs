//! Plain values exchanged with the command line: the lock-file usage policy
//! and the color-output choice.

use vstd::prelude::*;

verus! {

/// How an installer reconciles computed configuration with a previously
/// persisted resolution.
#[derive(Clone, Copy, Debug, PartialEq, Eq, Structural)]
pub enum LockFileUsage {
    /// Recompute the configuration and persist it (the default).
    Update,
    /// Fail when the computed configuration and the persisted lock disagree.
    Locked,
    /// Skip reconciliation and use whatever was last installed.
    Frozen,
}

/// The two mutually exclusive lock-file flags a caller can pass. The
/// exclusivity of `frozen` and `locked` is enforced at the boundary that
/// parses them; this type only carries the outcome.
#[derive(Clone, Copy, Debug, PartialEq, Eq, Structural, Default)]
pub struct LockFileUsageArgs {
    /// Don't check or update the lock, continue with what was installed.
    pub frozen: bool,
    /// Fail when the lock is not up to date with the manifest.
    pub locked: bool,
}

/// The policy the flag pair denotes: `frozen` wins, then `locked`, and
/// neither flag means [`LockFileUsage::Update`].
pub open spec fn spec_lock_file_usage(args: LockFileUsageArgs) -> LockFileUsage {
    if args.frozen {
        LockFileUsage::Frozen
    } else if args.locked {
        LockFileUsage::Locked
    } else {
        LockFileUsage::Update
    }
}

impl From<LockFileUsageArgs> for LockFileUsage {
    fn from(value: LockFileUsageArgs) -> (r: Self)
        ensures
            r == spec_lock_file_usage(value),
    {
        if value.frozen {
            Self::Frozen
        } else if value.locked {
            Self::Locked
        } else {
            Self::Update
        }
    }
}

impl vstd::std_specs::convert::FromSpecImpl<LockFileUsageArgs> for LockFileUsage {
    open spec fn obeys_from_spec() -> bool {
        true
    }

    open spec fn from_spec(v: LockFileUsageArgs) -> Self {
        spec_lock_file_usage(v)
    }
}

/// Whether log output is colored.
#[derive(Clone, Copy, Debug, PartialEq, Eq, Structural)]
pub enum ColorOutput {
    Always,
    Never,
    /// Color only when writing to a terminal and the no-color environment
    /// setting is absent.
    Auto,
}

impl Default for ColorOutput {
    fn default() -> (r: Self)
        ensures
            r == ColorOutput::Auto,
    {
        ColorOutput::Auto
    }
}

/// What `use_color_output` decides.
pub open spec fn spec_use_color_output(
    color: ColorOutput,
    no_color_set: bool,
    stderr_is_terminal: bool,
) -> bool {
    match color {
        ColorOutput::Always => true,
        ColorOutput::Never => false,
        ColorOutput::Auto => !no_color_set && stderr_is_terminal,
    }
}

/// Decides whether log output should be colored.
///
/// `no_color_set` says whether the no-color environment setting is present,
/// and `stderr_is_terminal` whether the diagnostic stream goes to a
/// terminal; the caller observes both at its boundary.
pub fn use_color_output(color: ColorOutput, no_color_set: bool, stderr_is_terminal: bool) -> (r:
    bool)
    ensures
        r == spec_use_color_output(color, no_color_set, stderr_is_terminal),
{
    match color {
        ColorOutput::Always => true,
        ColorOutput::Never => false,
        ColorOutput::Auto => !no_color_set && stderr_is_terminal,
    }
}

} // verus!
