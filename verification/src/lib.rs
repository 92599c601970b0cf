//! Edit a remote blob-store object as if it were a local file.
//!
//! The library holds the verified core of the workflow: parsing an
//! `s3://container/key` address, fingerprinting content to detect whether
//! the editor changed it, and the orchestrating state machine that decides,
//! from the outcome of each outside step, what happens next.  The
//! surrounding process (network transfer, temporary files, launching the
//! editor) performs the actions the state machine asks for and feeds the
//! results back as events.

pub mod address;
pub mod digest;
pub mod scratch;
pub mod workflow;
