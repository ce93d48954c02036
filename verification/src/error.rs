//! The ways in which reading or flattening an object can fail.

use vstd::prelude::*;

verus! {

/// Why a byte buffer was rejected by the reader.
#[derive(Clone, Copy, Debug, PartialEq, Eq, Structural)]
pub enum FormatError {
    /// The first four bytes are not the ELF identification magic.
    BadMagic,
    /// The data-encoding byte does not declare little-endian fields.
    UnsupportedEndianness,
    /// The machine code is neither the 32-bit nor the 64-bit one.
    UnsupportedMachine,
    /// A field lies partly or wholly beyond the end of the input.
    Truncated,
    /// A load segment's address plus its size does not fit in 64 bits.
    AddressOverflow,
}

/// Why a parsed object could not be flattened.
#[derive(Clone, Copy, Debug, PartialEq, Eq, Structural)]
pub enum FlattenError {
    /// The input, or one entry of its segment table, was rejected by the reader.
    Format(FormatError),
    /// No load segment set the image bounds, the end lies below the base, or
    /// the bounds span more bytes than one buffer can hold.
    EmptyOrInvalidRange,
    /// A load segment's file bytes do not lie inside the image bounds.
    SegmentOutOfRange,
    /// The entry point lies outside the image bounds.
    EntryPointOutOfRange,
    /// The entry point or the image base does not fit in 32 bits.
    AddressTooWide,
}

} // verus!
