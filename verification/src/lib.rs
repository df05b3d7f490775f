//! Verified core of a desktop manager for software installed from GitHub releases:
//! version comparison, release-asset ranking, tag handling and the decision logic
//! behind the editing windows.

pub mod text;
pub mod utils;
pub mod tags;
pub mod app;
pub mod gui;
