//! A reader for little-endian ELF executables and a transform that lays their
//! load segments out as one flat memory image.
//!
//! The reader ([`ElfParser`]) validates the identification bytes, resolves the
//! field layout of the declared width once, and exposes the program-header
//! table; the flattener ([`flatten`]) turns a parsed object into the bytes a
//! loader without virtual memory can copy into place.

pub mod bytes;
pub mod error;
pub mod flatten;
pub mod laws;
pub mod layout;
pub mod reader;
pub mod segment;

pub use bytes::read_le;
pub use error::{FlattenError, FormatError};
pub use flatten::{flatten, flatten_img, FlatImage};
pub use layout::{Field, Layout, Width};
pub use reader::{ElfParser, PTYPE_LOAD};
pub use segment::{Sections, SegmentDescriptor};
