//! Batch repository-maintenance library.
//!
//! A declarative manifest lists remote repositories and the local paths where
//! working copies of them are kept.  The library parses that manifest, decides
//! for every listed repository which version-control invocations a requested
//! high-level operation (clone, pull, push, sync) must perform, and collects
//! the per-repository outcomes of a batch run.  The decisions are verified;
//! the host program performs the process spawning and file probing that the
//! decisions ask for and feeds the results back in.

pub mod batch;
pub mod cli;
pub mod engine;
pub mod inspector;
pub mod laws;
pub mod manifest;
pub mod task;
pub mod text;
pub mod vcs;
