//! Patch management for a game installation: rewriting of its settings
//! file, presets, status snapshots, file toggles and the network patch's
//! key/value configuration, and the control panel that drives them.

pub mod text;
pub mod pattern;
pub mod config;
pub mod logging;
pub mod toggle;
pub mod t7patch;
pub mod dxvk;
pub mod steam;
pub mod panel;
