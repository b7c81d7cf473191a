//! Composition engine for a multi-environment, multi-platform project
//! manifest.
//!
//! A project declares reusable *features* (channels, platform lists, system
//! requirements, tasks, activation scripts and dependency specs, each
//! optionally specialised per target platform) and *environments*, which are
//! named ordered combinations of features. The [`environment::Environment`]
//! view derives, for any environment and platform, the effective
//! configuration that package resolution and installation consume: an ordered
//! unique channel list, the supported platform set, the unioned dependency
//! and system-requirement records, the activation-script sequence and the
//! task table.

pub mod cli;
pub mod dependencies;
pub mod environment;
pub mod errors;
pub mod ext;
pub mod keyed;
pub mod manifest;
pub mod platform;
pub mod project;
pub mod system_requirements;
pub mod task;
