//! A library for synchronizing local directory trees.
//!
//! The library models a scanned directory tree as three sets of entries
//! (files, directories, symbolic links), computes the set-algebraic
//! difference between a source tree and a destination tree, and turns the
//! result into an execution plan: which entries to delete, which to create,
//! which to compare by content, and in which order directories must be
//! removed.  A thin command-line front end performs the actual filesystem
//! walks and operations from such a plan.

pub mod compare;
pub mod engine;
pub mod file_ops;
pub mod parse;
pub mod paths;
pub mod progress;
pub mod set_ops;
pub mod sort;
