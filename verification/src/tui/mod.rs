//! The terminal interface: what is shown, and what keys and events change.
pub mod state;
pub mod events;
pub mod event_law;
pub mod erase_keys;
pub mod format_keys;
pub mod browse;
pub mod source_keys;
pub mod read_keys;
pub mod sequential_keys;
pub mod keys;
pub mod start;
pub mod start_law;
pub mod device;
pub mod view;
pub mod pages;
pub mod job_pages;
pub mod device_pages;
