//! Verified core of a batch media re-encoding tool.
//!
//! The pipeline discovers candidate media files, hands each one to an
//! external transcoder, compares the sizes of the original and the
//! re-encoded output, and reports how many bytes the run saved.  All
//! subprocess, filesystem and terminal work lives outside this crate;
//! what is verified here is the policy: which files are candidates, in
//! what order they are processed, which command is planned for each
//! file, how outcomes are classified and aggregated, and what the final
//! report says.

pub mod collect;
pub mod encode;
pub mod summary;
pub mod text;
