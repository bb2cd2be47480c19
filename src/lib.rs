//! Locates build identifiers inside Mach-O containers.
//!
//! The library reads single-architecture images and multi-architecture
//! ("fat") aggregates from an immutable byte buffer, walks their load
//! commands and collects every 128-bit build identifier that they carry.
//! Every read is bounds-checked and every anomaly in the container degrades
//! to "no identifier from here"; the outward operations never fail.

pub mod aggregate;
pub mod bytes;
pub mod container;
pub mod error;
pub mod identifier;
pub mod image;
pub mod layout;
pub mod scan;

pub use aggregate::{
    architecture_slices, check_slice, read_index_entry, slices_identifiers, ArchSlice,
};
pub use bytes::{ByteOrder, Cursor};
pub use container::{classify, container_kind, AddressWidth, ContainerKind};
pub use error::ScanError;
pub use identifier::{parse_identifier, BuildId};
pub use image::{extract_identifier, image_identifiers, next_record, record_identifiers, Record};
pub use scan::scan;
