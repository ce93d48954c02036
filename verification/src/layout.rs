//! Where the fields of the two ELF widths sit.
//!
//! The 32-bit and the 64-bit format hold the same fields at different
//! positions and in different sizes. Both are described by one table, looked
//! up once per object, so that no field read has to branch on the width.

use vstd::prelude::*;

verus! {

/// The machine code of 32-bit x86 objects.
pub const X86_MACHINE: u16 = 0x03;

/// The machine code of 64-bit x86 objects.
pub const AMD64_MACHINE: u16 = 0x3e;

/// Position of the machine code in the file header, for either width.
pub const MACHINE_OFFSET: usize = 0x12;

/// Size of the machine code in bytes.
pub const MACHINE_WIDTH: usize = 2;

/// Position of the byte that declares the data encoding.
pub const ENCODING_OFFSET: usize = 0x05;

/// The data-encoding value that declares little-endian fields.
pub const LITTLE_ENDIAN: u8 = 1;

/// Which of the two field layouts an object uses.
#[derive(Clone, Copy, Debug, PartialEq, Eq, Structural)]
pub enum Width {
    /// 32-bit headers: addresses, offsets and sizes take four bytes.
    Bits32,
    /// 64-bit headers: addresses, offsets and sizes take eight bytes.
    Bits64,
}

/// Position and size of one field, relative to the start of the structure
/// that holds it.
#[derive(Clone, Copy, Debug, PartialEq, Eq, Structural)]
pub struct Field {
    /// Distance in bytes from the start of the structure.
    pub offset: usize,
    /// Size in bytes: two, four or eight.
    pub width: usize,
}

/// The fields that the reader takes from the file header and from each entry
/// of the segment table.
#[derive(Clone, Copy, Debug, PartialEq, Eq, Structural)]
pub struct Layout {
    /// Header: address of the first instruction.
    pub entry_point: Field,
    /// Header: file position of the segment table.
    pub table_offset: Field,
    /// Header: size of one entry of the segment table.
    pub entry_size: Field,
    /// Header: number of entries in the segment table.
    pub entry_count: Field,
    /// Segment entry: kind of segment.
    pub segment_type: Field,
    /// Segment entry: permission bits.
    pub flags: Field,
    /// Segment entry: file position of the segment's bytes.
    pub file_offset: Field,
    /// Segment entry: address at which the segment is loaded.
    pub virtual_address: Field,
    /// Segment entry: number of bytes the segment has in the file.
    pub file_size: Field,
    /// Segment entry: number of bytes the segment takes in memory.
    pub memory_size: Field,
}

impl Layout {
    /// Every field is at most eight bytes wide and ends within the first
    /// 64 bytes of its structure.
    pub open spec fn compact(self) -> bool {
        &&& self.entry_point.fits()
        &&& self.table_offset.fits()
        &&& self.entry_size.fits()
        &&& self.entry_count.fits()
        &&& self.segment_type.fits()
        &&& self.flags.fits()
        &&& self.file_offset.fits()
        &&& self.virtual_address.fits()
        &&& self.file_size.fits()
        &&& self.memory_size.fits()
    }
}

impl Field {
    /// The field is at most eight bytes wide and ends within the first 64
    /// bytes of its structure.
    pub open spec fn fits(self) -> bool {
        self.width <= 8 && self.offset + self.width <= 64
    }
}

impl Width {
    /// The width that a machine code declares, if it is a recognised one.
    pub open spec fn spec_from_machine(code: u16) -> Option<Width> {
        if code == X86_MACHINE {
            Some(Width::Bits32)
        } else if code == AMD64_MACHINE {
            Some(Width::Bits64)
        } else {
            None
        }
    }

    /// The field table of this width.
    pub open spec fn spec_layout(self) -> Layout {
        match self {
            Width::Bits32 => Layout {
                entry_point: Field { offset: 0x18, width: 4 },
                table_offset: Field { offset: 0x1c, width: 4 },
                entry_size: Field { offset: 0x2a, width: 2 },
                entry_count: Field { offset: 0x2c, width: 2 },
                segment_type: Field { offset: 0x00, width: 4 },
                flags: Field { offset: 0x18, width: 4 },
                file_offset: Field { offset: 0x04, width: 4 },
                virtual_address: Field { offset: 0x08, width: 4 },
                file_size: Field { offset: 0x10, width: 4 },
                memory_size: Field { offset: 0x14, width: 4 },
            },
            Width::Bits64 => Layout {
                entry_point: Field { offset: 0x18, width: 8 },
                table_offset: Field { offset: 0x20, width: 8 },
                entry_size: Field { offset: 0x36, width: 2 },
                entry_count: Field { offset: 0x38, width: 2 },
                segment_type: Field { offset: 0x00, width: 4 },
                flags: Field { offset: 0x04, width: 4 },
                file_offset: Field { offset: 0x08, width: 8 },
                virtual_address: Field { offset: 0x10, width: 8 },
                file_size: Field { offset: 0x20, width: 8 },
                memory_size: Field { offset: 0x28, width: 8 },
            },
        }
    }

    /// Recognises the two supported machine codes.
    pub fn from_machine(code: u16) -> (w: Option<Width>)
        ensures
            w == Width::spec_from_machine(code),
    {
        if code == X86_MACHINE {
            Some(Width::Bits32)
        } else if code == AMD64_MACHINE {
            Some(Width::Bits64)
        } else {
            None
        }
    }

    /// Looks up the field table of this width.
    pub fn layout(self) -> (l: Layout)
        ensures
            l == self.spec_layout(),
            l.compact(),
    {
        match self {
            Width::Bits32 => Layout {
                entry_point: Field { offset: 0x18, width: 4 },
                table_offset: Field { offset: 0x1c, width: 4 },
                entry_size: Field { offset: 0x2a, width: 2 },
                entry_count: Field { offset: 0x2c, width: 2 },
                segment_type: Field { offset: 0x00, width: 4 },
                flags: Field { offset: 0x18, width: 4 },
                file_offset: Field { offset: 0x04, width: 4 },
                virtual_address: Field { offset: 0x08, width: 4 },
                file_size: Field { offset: 0x10, width: 4 },
                memory_size: Field { offset: 0x14, width: 4 },
            },
            Width::Bits64 => Layout {
                entry_point: Field { offset: 0x18, width: 8 },
                table_offset: Field { offset: 0x20, width: 8 },
                entry_size: Field { offset: 0x36, width: 2 },
                entry_count: Field { offset: 0x38, width: 2 },
                segment_type: Field { offset: 0x00, width: 4 },
                flags: Field { offset: 0x04, width: 4 },
                file_offset: Field { offset: 0x08, width: 8 },
                virtual_address: Field { offset: 0x10, width: 8 },
                file_size: Field { offset: 0x20, width: 8 },
                memory_size: Field { offset: 0x28, width: 8 },
            },
        }
    }
}

} // verus!
