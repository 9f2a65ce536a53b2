//! Decoding and publishing of the readings that a hardware monitor exports
//! through a shared memory region.

pub mod error;
pub mod hwinfo_reader;
pub mod hwinfo_types;
pub mod layout;
pub mod metrics;
pub mod table_types;
pub mod text;
