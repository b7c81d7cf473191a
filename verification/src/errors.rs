//! The structured errors composition can return.

use vstd::prelude::*;

use crate::manifest::EnvironmentName;
use crate::platform::Platform;

verus! {

/// A platform was requested that the environment's computed platform set
/// does not hold. Carries the environment, the offending platform and the
/// full supported set for diagnostics.
#[derive(Debug)]
pub struct UnsupportedPlatformError {
    /// The platforms the environment does support.
    pub environments_platforms: Vec<Platform>,
    /// The environment the request was made against.
    pub environment: EnvironmentName,
    /// The platform that is not supported.
    pub platform: Platform,
}

/// A task was requested that is not available for the given environment and
/// platform. Raised both when the platform is unsupported and when no
/// feature defines the task; the two causes are deliberately collapsed into
/// this one value.
#[derive(Debug)]
pub struct UnknownTask {
    /// The environment the request was made against.
    pub environment: EnvironmentName,
    /// The platform the task was requested for, if any.
    pub platform: Option<Platform>,
    /// The name that was looked up.
    pub task_name: String,
}

} // verus!
