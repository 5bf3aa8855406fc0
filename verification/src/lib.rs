//! Verified core of `mvre`, a tool that moves files whose paths match a
//! regular expression to new paths built from a replacement template.
//!
//! The library decides; the program around it reads directories, asks the
//! user and moves files.

pub mod compiled;
pub mod pattern;
pub mod paths;
pub mod plan;
pub mod answer;
pub mod rename;
pub mod walk;
pub mod windows;
pub mod options;
