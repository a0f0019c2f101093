//! A verified core for a desktop control panel that drives Android devices
//! through two external command-line tools: a device bridge (`adb`) and a
//! screen mirror (`scrcpy`).
//!
//! Everything that can be stated and proved lives here: parsing the tools'
//! line-oriented output, building their argument vectors, the configuration
//! model, and the state the panels carry between frames.  Process spawning
//! and the widget toolkit stay outside, in the surrounding application.

pub mod app;
pub mod bridge;
pub mod config;
pub mod device;
pub mod text;
pub mod ui;
pub mod utils;
