//! LTO tape and LTFS logic: what device responses mean, how LTFS volumes are labelled
//! and indexed, and how tape operations are planned and tracked.
pub mod app;
pub mod bytes;
pub mod cli;
pub mod device;
pub mod hash;
pub mod job;
pub mod ltfs;
pub mod paths;
pub mod reports;
pub mod sort;
pub mod text;
pub mod tui;
