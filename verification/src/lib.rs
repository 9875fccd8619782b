//! The core of a cancellable directory scanner that streams its progress.
//!
//! A scan is a walk over a directory tree, fed node by node to a
//! [`scanner::DirectoryScanner`], which decides what is admitted, keeps the
//! totals, says when a progress snapshot is due, and ends the walk with a
//! result, a cancellation or an error. The [`relay::ProgressRelay`] keeps
//! the snapshots from flooding their observer. The [`state::VeloxState`]
//! keeps track of the sessions in flight, and [`commands`] is what a front
//! end can ask for. What holds of every walk is stated and proved in
//! [`trace`].
//!
//! Reading the filesystem, passing messages between tasks and talking to a
//! window are left to the program around this library.

pub mod clock;
pub mod commands;
pub mod error;
pub mod ident;
pub mod relay;
pub mod scanner;
pub mod state;
pub mod trace;
pub mod types;
