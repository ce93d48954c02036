//! The segment table: one descriptor per entry, in table order.
//!
//! [`ElfParser::sections`] starts a traversal of the table. The traversal is
//! a cursor: each call of [`Sections::next`] decodes the entry it stands on
//! and moves to the following one, so a consumer that has seen enough simply
//! stops asking.

use crate::bytes::lemma_byte_span_values;
use crate::error::FormatError;
use crate::layout::Width;
use crate::reader::{entry_start, read_field, spec_entry_start, spec_field, ElfModel, ElfParser};
use vstd::prelude::*;
use vstd::slice::slice_subrange;

verus! {

/// The permission bit of a segment that may be executed.
pub const SECTION_EXEC: u32 = 0x01;

/// The permission bit of a segment that may be written.
pub const SECTION_WRITE: u32 = 0x02;

/// The permission bit of a segment that may be read.
pub const SECTION_READ: u32 = 0x04;

/// One entry of the segment table, decoded.
#[derive(Clone, Copy, Debug, PartialEq, Eq)]
pub struct SegmentDescriptor<'a> {
    /// The kind of segment; [`PTYPE_LOAD`](crate::reader::PTYPE_LOAD) marks
    /// the ones that are copied into memory.
    pub segment_type: u32,
    /// The address at which the segment is loaded.
    pub virtual_address: u64,
    /// The number of bytes the segment takes in memory.
    pub memory_size: u64,
    /// The segment's bytes in the file, cut to the memory size where the
    /// file holds more. Memory beyond them is zero-filled.
    pub file_bytes: &'a [u8],
    /// Whether the segment may be executed.
    pub executable: bool,
    /// Whether the segment may be written.
    pub writable: bool,
    /// Whether the segment may be read.
    pub readable: bool,
}

/// What a [`SegmentDescriptor`] stands for in specifications.
pub struct SegmentModel {
    pub segment_type: u32,
    pub virtual_address: u64,
    pub memory_size: u64,
    pub file_bytes: Seq<u8>,
    pub executable: bool,
    pub writable: bool,
    pub readable: bool,
}

impl<'a> View for SegmentDescriptor<'a> {
    type V = SegmentModel;

    open spec fn view(&self) -> SegmentModel {
        SegmentModel {
            segment_type: self.segment_type,
            virtual_address: self.virtual_address,
            memory_size: self.memory_size,
            file_bytes: self.file_bytes@,
            executable: self.executable,
            writable: self.writable,
            readable: self.readable,
        }
    }
}

/// The descriptor of the table entry that starts at `start`.
///
/// All six fields of the entry are read, whatever its type. The file bytes
/// are the `min(file size, memory size)` bytes at the entry's file offset.
/// Where a field, or any of those bytes, lies beyond the input, the entry is
/// `Truncated`.
pub open spec fn spec_segment(raw: Seq<u8>, width: Width, start: int) -> Result<
    SegmentModel,
    FormatError,
> {
    let layout = width.spec_layout();
    match (
        spec_field(raw, start, layout.virtual_address),
        spec_field(raw, start, layout.memory_size),
        spec_field(raw, start, layout.segment_type),
        spec_field(raw, start, layout.file_offset),
        spec_field(raw, start, layout.file_size),
        spec_field(raw, start, layout.flags),
    ) {
        (
            Ok(virtual_address),
            Ok(memory_size),
            Ok(segment_type),
            Ok(file_offset),
            Ok(file_size),
            Ok(flags),
        ) => {
            let kept = if file_size < memory_size { file_size } else { memory_size };
            if file_offset + kept <= raw.len() {
                Ok(
                    SegmentModel {
                        segment_type: segment_type as u32,
                        virtual_address,
                        memory_size,
                        file_bytes: raw.subrange(file_offset as int, file_offset + kept),
                        executable: (flags as u32) & SECTION_EXEC != 0,
                        writable: (flags as u32) & SECTION_WRITE != 0,
                        readable: (flags as u32) & SECTION_READ != 0,
                    },
                )
            } else {
                Err(FormatError::Truncated)
            }
        },
        _ => Err(FormatError::Truncated),
    }
}

/// The descriptor of entry `index` of an object's segment table.
pub open spec fn spec_segment_at(object: ElfModel, index: int) -> Result<SegmentModel, FormatError> {
    spec_segment(
        object.raw,
        object.width,
        spec_entry_start(object.segment_table_offset, object.segment_entry_size, index),
    )
}

/// What a decoded entry stands for in specifications.
pub open spec fn segment_view(decoded: Result<SegmentDescriptor<'_>, FormatError>) -> Result<
    SegmentModel,
    FormatError,
> {
    match decoded {
        Ok(segment) => Ok(segment@),
        Err(e) => Err(e),
    }
}

/// Decodes the table entry that starts at `start`.
pub(crate) fn decode_segment<'a>(raw: &'a [u8], width: Width, start: u128) -> (r: Result<
    SegmentDescriptor<'a>,
    FormatError,
>)
    requires
        start < 0x2_0000_0000_0000_0000_0000,
    ensures
        segment_view(r) == spec_segment(raw@, width, start as int),
{
    let layout = width.layout();
    proof {
        lemma_byte_span_values();
    }
    let virtual_address: u64 = match read_field(raw, start, layout.virtual_address) {
        Ok(value) => value,
        Err(e) => { return Err(e); },
    };
    let memory_size: u64 = match read_field(raw, start, layout.memory_size) {
        Ok(value) => value,
        Err(e) => { return Err(e); },
    };
    let segment_type: u64 = match read_field(raw, start, layout.segment_type) {
        Ok(value) => value,
        Err(e) => { return Err(e); },
    };
    let file_offset: u64 = match read_field(raw, start, layout.file_offset) {
        Ok(value) => value,
        Err(e) => { return Err(e); },
    };
    let file_size: u64 = match read_field(raw, start, layout.file_size) {
        Ok(value) => value,
        Err(e) => { return Err(e); },
    };
    let flags: u64 = match read_field(raw, start, layout.flags) {
        Ok(value) => value,
        Err(e) => { return Err(e); },
    };
    let kept: u64 = if file_size < memory_size { file_size } else { memory_size };
    if file_offset as u128 + kept as u128 > raw.len() as u128 {
        return Err(FormatError::Truncated);
    }
    let first: usize = file_offset as usize;
    let past: usize = (file_offset + kept) as usize;
    let flags: u32 = flags as u32;
    Ok(
        SegmentDescriptor {
            segment_type: segment_type as u32,
            virtual_address,
            memory_size,
            file_bytes: slice_subrange(raw, first, past),
            executable: flags & SECTION_EXEC != 0,
            writable: flags & SECTION_WRITE != 0,
            readable: flags & SECTION_READ != 0,
        },
    )
}

/// A traversal of an object's segment table, from the first entry on.
#[derive(Clone, Copy, Debug)]
pub struct Sections<'a> {
    /// The object whose table is traversed.
    pub object: ElfParser<'a>,
    /// Index of the entry that the next call of [`Sections::next`] decodes.
    pub position: usize,
}

impl<'a> Sections<'a> {
    /// Decodes the entry the traversal stands on and moves to the next one;
    /// `None` once every entry of the table has been visited.
    ///
    /// Entries come in table order. An entry that cannot be decoded comes as
    /// its error; the traversal moves past it like past any other.
    pub fn next(&mut self) -> (r: Option<Result<SegmentDescriptor<'a>, FormatError>>)
        ensures
            final(self).object == old(self).object,
            old(self).position < old(self).object.segment_count ==> {
                &&& final(self).position == old(self).position + 1
                &&& r matches Some(decoded)
                &&& segment_view(decoded) == spec_segment_at(
                    old(self).object@,
                    old(self).position as int,
                )
            },
            old(self).position >= old(self).object.segment_count ==> {
                &&& final(self).position == old(self).position
                &&& r is None
            },
    {
        if self.position >= self.object.segment_count {
            return None;
        }
        let start = entry_start(
            self.object.segment_table_offset,
            self.object.segment_entry_size,
            self.position,
        );
        let decoded = decode_segment(self.object.raw, self.object.width, start);
        self.position = self.position + 1;
        Some(decoded)
    }
}

impl<'a> ElfParser<'a> {
    /// Starts a traversal of the segment table at its first entry.
    ///
    /// Every call starts afresh: traversals do not share their position.
    pub fn sections(&self) -> (cursor: Sections<'a>)
        ensures
            cursor.object == *self,
            cursor.position == 0,
    {
        Sections { object: *self, position: 0 }
    }
}

} // verus!
