//! What is done with tapes: inspecting, formatting, erasing, reading and writing.
pub mod drives;
pub mod mounts;
pub mod volume;
pub mod erase;
pub mod erase_law;
pub mod flow;
pub mod format;
pub mod format_law;
pub mod format_run_law;
pub mod probe;
pub mod probe_law;
pub mod inspect;
pub mod random;
pub mod source;
pub mod scan;
pub mod scan_law;
pub mod plan;
pub mod plan_law;
pub mod write_state;
pub mod append;
pub mod telemetry;
pub mod data;
pub mod commit;
pub mod commit_law;
pub mod write;
pub mod mam_report;
pub mod snapshot;
pub mod reader;
pub mod round_trip;
pub mod write_law;
pub mod tape_law;
pub mod inspect_law;
pub mod reader_law;
pub mod verify_law;
pub mod health_law;
pub mod memory_law;
pub mod check_law;
pub mod extent_law;
