//! A small grep: line matching, binary detection, symlink policy and the
//! decisions of a depth-first directory walk, each stated and proved.
//! The filesystem and the terminal are driven by the caller, which hands the
//! library plain facts and receives reports to print.

pub mod binary;
pub mod config;
pub mod matcher;
pub mod paths;
pub mod report;
pub mod walk;
pub mod walker;
pub mod laws;
