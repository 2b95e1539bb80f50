//! The LTFS format: labels, indexes, medium auxiliary memory, and the search for the
//! newest index in a stream of records. Nothing here touches a device.
pub mod xml;
pub mod label;
pub mod document;
pub mod tree;
pub mod index;
pub mod index_xml;
pub mod index_law;
pub mod stored_law;
pub mod uid_law;
pub mod validate;
pub mod path_law;
pub mod scan;
pub mod mam;
