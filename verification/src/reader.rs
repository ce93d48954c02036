//! The header reader: from raw bytes to the shape of an object.
//!
//! [`ElfParser::parse`] checks the identification bytes, picks the field
//! layout of the declared width, reads the four header fields that locate
//! the segment table, and walks the table once to find the lowest and the
//! highest address that any load segment occupies.

use crate::bytes::{byte_span, lemma_byte_span_values, read_le, spec_read_le};
use crate::error::FormatError;
use crate::layout::{
    Field, Width, ENCODING_OFFSET, LITTLE_ENDIAN, MACHINE_OFFSET, MACHINE_WIDTH,
};
use vstd::prelude::*;

verus! {

/// The segment type of a load segment: one whose bytes are copied into
/// memory before the program starts.
pub const PTYPE_LOAD: u32 = 0x1;

/// The image base of an object in which no load segment has been seen.
pub const UNSET_BASE: u64 = 0xffff_ffff_ffff_ffff;

/// The shape of an ELF object, together with the bytes it was read from.
#[derive(Clone, Copy, Debug, PartialEq, Eq)]
pub struct ElfParser<'a> {
    /// The bytes of the whole file.
    pub raw: &'a [u8],
    /// Which field layout the file uses.
    pub width: Width,
    /// The lowest address of any load segment, or [`UNSET_BASE`] if the file
    /// has none.
    pub image_base: u64,
    /// The highest address plus memory size of any load segment, or zero if
    /// the file has none.
    pub image_end: u64,
    /// The address of the first instruction, as the header declares it.
    pub entry_point: u64,
    /// File position of the segment table, at the header's full width.
    pub segment_table_offset: u64,
    /// Number of entries in the segment table.
    pub segment_count: usize,
    /// Distance in bytes from one entry of the segment table to the next.
    pub segment_entry_size: u16,
}

/// What an [`ElfParser`] stands for in specifications: the same fields, with
/// the borrowed bytes as a sequence.
pub struct ElfModel {
    pub raw: Seq<u8>,
    pub width: Width,
    pub image_base: u64,
    pub image_end: u64,
    pub entry_point: u64,
    pub segment_table_offset: u64,
    pub segment_count: usize,
    pub segment_entry_size: u16,
}

impl<'a> View for ElfParser<'a> {
    type V = ElfModel;

    open spec fn view(&self) -> ElfModel {
        ElfModel {
            raw: self.raw@,
            width: self.width,
            image_base: self.image_base,
            image_end: self.image_end,
            entry_point: self.entry_point,
            segment_table_offset: self.segment_table_offset,
            segment_count: self.segment_count,
            segment_entry_size: self.segment_entry_size,
        }
    }
}

/// The input starts with the four identification bytes `0x7f 'E' 'L' 'F'`.
pub open spec fn has_magic(raw: Seq<u8>) -> bool {
    &&& raw.len() >= 4
    &&& raw[0] == 0x7f
    &&& raw[1] == 0x45
    &&& raw[2] == 0x4c
    &&& raw[3] == 0x46
}

/// The value of `field` in the structure that starts at `start`.
pub open spec fn spec_field(raw: Seq<u8>, start: int, field: Field) -> Result<u64, FormatError> {
    spec_read_le(raw, start + field.offset, field.width as int)
}

/// File position of entry `index` of a segment table.
pub open spec fn spec_entry_start(table_offset: u64, entry_size: u16, index: int) -> int {
    table_offset + index * entry_size
}

/// What the walk over the segment table takes from the entry at `start`:
/// nothing from an entry that is not a load segment, the address and the
/// memory size from one that is.
///
/// Only the type is read of an entry that is not a load segment, so such an
/// entry is accepted even where its other fields lie beyond the input.
pub open spec fn spec_extent(raw: Seq<u8>, width: Width, start: int) -> Result<
    Option<(u64, u64)>,
    FormatError,
> {
    let layout = width.spec_layout();
    match spec_field(raw, start, layout.segment_type) {
        Err(e) => Err(e),
        Ok(kind) => if kind as u32 != PTYPE_LOAD {
            Ok(None)
        } else {
            match (
                spec_field(raw, start, layout.virtual_address),
                spec_field(raw, start, layout.memory_size),
            ) {
                (Ok(address), Ok(size)) => Ok(Some((address, size))),
                _ => Err(FormatError::Truncated),
            }
        },
    }
}

/// The image bounds after the first `count` entries of the segment table:
/// the lowest address and the highest end of the load segments among them.
///
/// The walk stops at the first entry that cannot be read or whose end does
/// not fit in 64 bits, with that entry's error.
pub open spec fn spec_bounds(
    raw: Seq<u8>,
    width: Width,
    table_offset: u64,
    entry_size: u16,
    count: nat,
) -> Result<(u64, u64), FormatError>
    decreases count,
{
    if count == 0 {
        Ok((UNSET_BASE, 0))
    } else {
        match spec_bounds(raw, width, table_offset, entry_size, (count - 1) as nat) {
            Err(e) => Err(e),
            Ok((base, end)) => match spec_extent(
                raw,
                width,
                spec_entry_start(table_offset, entry_size, count - 1),
            ) {
                Err(e) => Err(e),
                Ok(None) => Ok((base, end)),
                Ok(Some((address, size))) => if address + size > u64::MAX {
                    Err(FormatError::AddressOverflow)
                } else {
                    Ok(
                        (
                            if address < base { address } else { base },
                            if end < address + size { (address + size) as u64 } else { end },
                        ),
                    )
                },
            },
        }
    }
}

/// The shape of an object of known width: its header fields and the bounds
/// that its segment table gives.
pub open spec fn spec_parse_fields(raw: Seq<u8>, width: Width) -> Result<ElfModel, FormatError> {
    let layout = width.spec_layout();
    match (
        spec_field(raw, 0, layout.entry_point),
        spec_field(raw, 0, layout.table_offset),
        spec_field(raw, 0, layout.entry_size),
        spec_field(raw, 0, layout.entry_count),
    ) {
        (Ok(entry_point), Ok(table_offset), Ok(entry_size), Ok(entry_count)) => match spec_bounds(
            raw,
            width,
            table_offset,
            entry_size as u16,
            entry_count as usize as nat,
        ) {
            Err(e) => Err(e),
            Ok((base, end)) => Ok(
                ElfModel {
                    raw,
                    width,
                    image_base: base,
                    image_end: end,
                    entry_point,
                    segment_table_offset: table_offset,
                    segment_count: entry_count as usize,
                    segment_entry_size: entry_size as u16,
                },
            ),
        },
        _ => Err(FormatError::Truncated),
    }
}

/// What [`ElfParser::parse`] makes of an input.
///
/// The checks run in this order, and the first that fails decides the error:
/// the magic, the presence of the encoding byte, the encoding, the presence
/// of the machine code, the machine code, the header fields, and the entries
/// of the segment table from the first to the last.
pub open spec fn spec_parse(raw: Seq<u8>) -> Result<ElfModel, FormatError> {
    if !has_magic(raw) {
        Err(FormatError::BadMagic)
    } else if raw.len() <= ENCODING_OFFSET {
        Err(FormatError::Truncated)
    } else if raw[ENCODING_OFFSET as int] != LITTLE_ENDIAN {
        Err(FormatError::UnsupportedEndianness)
    } else {
        match spec_read_le(raw, MACHINE_OFFSET as int, MACHINE_WIDTH as int) {
            Err(e) => Err(e),
            Ok(machine) => match Width::spec_from_machine(machine as u16) {
                None => Err(FormatError::UnsupportedMachine),
                Some(width) => spec_parse_fields(raw, width),
            },
        }
    }
}

/// What the outcome of parsing stands for in specifications.
pub open spec fn parse_view(outcome: Result<ElfParser<'_>, FormatError>) -> Result<
    ElfModel,
    FormatError,
> {
    match outcome {
        Ok(parsed) => Ok(parsed@),
        Err(e) => Err(e),
    }
}

/// Once the walk over the segment table has failed, it stays failed with the
/// same error however many more entries the table has.
pub proof fn lemma_bounds_error_persists(
    raw: Seq<u8>,
    width: Width,
    table_offset: u64,
    entry_size: u16,
    failed: nat,
    count: nat,
)
    requires
        failed <= count,
        spec_bounds(raw, width, table_offset, entry_size, failed) is Err,
    ensures
        spec_bounds(raw, width, table_offset, entry_size, count) == spec_bounds(
            raw,
            width,
            table_offset,
            entry_size,
            failed,
        ),
    decreases count,
{
    if failed < count {
        lemma_bounds_error_persists(
            raw,
            width,
            table_offset,
            entry_size,
            failed,
            (count - 1) as nat,
        );
    }
}

/// File position of entry `index` of a segment table.
///
/// Computed in 128 bits: the offset is below 2^64 and the product below
/// 2^80, so the sum cannot wrap.
pub(crate) fn entry_start(table_offset: u64, entry_size: u16, index: usize) -> (start: u128)
    ensures
        start == spec_entry_start(table_offset, entry_size, index as int),
        start < 0x2_0000_0000_0000_0000_0000,
{
    assert(index * entry_size <= 0xffff_ffff_ffff_ffff * 0xffff) by (nonlinear_arith)
        requires
            0 <= index <= 0xffff_ffff_ffff_ffff,
            0 <= entry_size <= 0xffff,
    ;
    table_offset as u128 + index as u128 * entry_size as u128
}

/// Reads `field` of the structure that starts at `start`.
pub(crate) fn read_field(raw: &[u8], start: u128, field: Field) -> (r: Result<u64, FormatError>)
    requires
        field.fits(),
        start < 0x2_0000_0000_0000_0000_0000,
    ensures
        r == spec_field(raw@, start as int, field),
        r matches Ok(value) ==> value < byte_span(field.width as nat),
{
    read_le(raw, start + field.offset as u128, field.width)
}

impl<'a> ElfParser<'a> {
    /// Reads the shape of an ELF object from the bytes of its file.
    ///
    /// Succeeds exactly on the inputs that pass every check of
    /// [`spec_parse`], with the fields that it gives, and otherwise fails
    /// with the error of the first check that does not pass.
    pub fn parse(raw: &'a [u8]) -> (r: Result<ElfParser<'a>, FormatError>)
        ensures
            parse_view(r) == spec_parse(raw@),
    {
        if raw.len() < 4 || raw[0] != 0x7f || raw[1] != 0x45 || raw[2] != 0x4c || raw[3] != 0x46 {
            return Err(FormatError::BadMagic);
        }
        if raw.len() <= ENCODING_OFFSET {
            return Err(FormatError::Truncated);
        }
        if raw[ENCODING_OFFSET] != LITTLE_ENDIAN {
            return Err(FormatError::UnsupportedEndianness);
        }
        proof {
            lemma_byte_span_values();
        }
        let machine: u64 = match read_le(raw, MACHINE_OFFSET as u128, MACHINE_WIDTH) {
            Ok(machine) => machine,
            Err(e) => { return Err(e); },
        };
        let width: Width = match Width::from_machine(machine as u16) {
            Some(width) => width,
            None => { return Err(FormatError::UnsupportedMachine); },
        };
        let layout = width.layout();
        let entry_point: u64 = match read_field(raw, 0, layout.entry_point) {
            Ok(value) => value,
            Err(e) => { return Err(e); },
        };
        let entry_count: u64 = match read_field(raw, 0, layout.entry_count) {
            Ok(value) => value,
            Err(e) => { return Err(e); },
        };
        let entry_size: u64 = match read_field(raw, 0, layout.entry_size) {
            Ok(value) => value,
            Err(e) => { return Err(e); },
        };
        let table_offset: u64 = match read_field(raw, 0, layout.table_offset) {
            Ok(value) => value,
            Err(e) => { return Err(e); },
        };
        let segment_count: usize = entry_count as usize;
        let segment_entry_size: u16 = entry_size as u16;

        let mut base: u64 = UNSET_BASE;
        let mut end: u64 = 0;
        let mut index: usize = 0;
        while index < segment_count
            invariant
                index <= segment_count,
                layout == width.spec_layout(),
                layout.compact(),
                byte_span(4) == 0x1_0000_0000,
                spec_parse(raw@) == spec_parse_fields(raw@, width),
                spec_field(raw@, 0, layout.entry_point) == Ok::<u64, FormatError>(entry_point),
                spec_field(raw@, 0, layout.table_offset) == Ok::<u64, FormatError>(table_offset),
                spec_field(raw@, 0, layout.entry_size) == Ok::<u64, FormatError>(entry_size),
                spec_field(raw@, 0, layout.entry_count) == Ok::<u64, FormatError>(entry_count),
                segment_count == entry_count as usize,
                segment_entry_size == entry_size as u16,
                spec_bounds(raw@, width, table_offset, segment_entry_size, index as nat) == Ok::<
                    (u64, u64),
                    FormatError,
                >((base, end)),
            decreases segment_count - index,
        {
            let start = entry_start(table_offset, segment_entry_size, index);
            proof {
                // The entry about to be read decides the bounds after it; if
                // it fails, every longer walk fails in the same way.
                let after = spec_bounds(
                    raw@,
                    width,
                    table_offset,
                    segment_entry_size,
                    (index + 1) as nat,
                );
                if after is Err {
                    lemma_bounds_error_persists(
                        raw@,
                        width,
                        table_offset,
                        segment_entry_size,
                        (index + 1) as nat,
                        segment_count as nat,
                    );
                }
            }
            let kind: u64 = match read_field(raw, start, layout.segment_type) {
                Ok(value) => value,
                Err(e) => { return Err(e); },
            };
            if kind as u32 == PTYPE_LOAD {
                let address: u64 = match read_field(raw, start, layout.virtual_address) {
                    Ok(value) => value,
                    Err(e) => { return Err(e); },
                };
                let size: u64 = match read_field(raw, start, layout.memory_size) {
                    Ok(value) => value,
                    Err(e) => { return Err(e); },
                };
                let segment_end: u64 = match address.checked_add(size) {
                    Some(sum) => sum,
                    None => { return Err(FormatError::AddressOverflow); },
                };
                if address < base {
                    base = address;
                }
                if end < segment_end {
                    end = segment_end;
                }
            }
            index = index + 1;
        }
        Ok(
            ElfParser {
                raw,
                width,
                image_base: base,
                image_end: end,
                entry_point,
                segment_table_offset: table_offset,
                segment_count,
                segment_entry_size,
            },
        )
    }
}

} // verus!
