//! What holds of the reader and the flattener on every input.
//!
//! Each proof function here states one law over the specification functions
//! that the contracts of [`ElfParser::parse`](crate::reader::ElfParser::parse)
//! and [`flatten`](crate::flatten::flatten) are written in, so each law
//! holds of whatever those functions return.

use crate::bytes::spec_read_le;
use crate::error::{FlattenError, FormatError};
use crate::flatten::{
    covers, invalid_range, lemma_image_len, placed, spec_flatten, spec_image, spec_image_size,
    spec_segment_fault, FlatImageModel,
};
use crate::layout::{Width, ENCODING_OFFSET, LITTLE_ENDIAN, MACHINE_OFFSET, MACHINE_WIDTH};
use crate::reader::{
    has_magic, parse_view, spec_bounds, spec_entry_start, spec_extent, spec_field, spec_parse,
    spec_parse_fields, ElfModel, ElfParser, PTYPE_LOAD, UNSET_BASE,
};
use crate::segment::{spec_segment, spec_segment_at};
use vstd::prelude::*;

verus! {

// ----------------------------------------------------------------------
// The reader
// ----------------------------------------------------------------------

/// The walk over the segment table fails in two ways only: an entry lies
/// beyond the input, or a load segment's end does not fit in 64 bits.
pub proof fn lemma_bounds_errors(
    raw: Seq<u8>,
    width: Width,
    table_offset: u64,
    entry_size: u16,
    count: nat,
)
    ensures
        spec_bounds(raw, width, table_offset, entry_size, count) matches Err(e) ==> e
            == FormatError::Truncated || e == FormatError::AddressOverflow,
    decreases count,
{
    if count > 0 {
        lemma_bounds_errors(raw, width, table_offset, entry_size, (count - 1) as nat);
    }
}

/// The machine code that the input declares, where the input is long enough
/// to hold one.
pub open spec fn declared_machine(raw: Seq<u8>) -> Option<u16> {
    match spec_read_le(raw, MACHINE_OFFSET as int, MACHINE_WIDTH as int) {
        Ok(code) => Some(code as u16),
        Err(_) => None,
    }
}

/// The input carries the magic and declares little-endian fields.
pub open spec fn identifies_as_little_endian(raw: Seq<u8>) -> bool {
    &&& has_magic(raw)
    &&& raw.len() > ENCODING_OFFSET
    &&& raw[ENCODING_OFFSET as int] == LITTLE_ENDIAN
}

/// The input gets past the checks that can end in `BadMagic` or `Truncated`
/// alone: it carries the magic and an encoding byte, and then either
/// declares another encoding than little-endian, or declares a machine that
/// is not supported, or holds every header field of its width and a segment
/// table whose walk does not run out of input.
pub open spec fn outlasts_truncation(raw: Seq<u8>) -> bool {
    &&& has_magic(raw)
    &&& raw.len() > ENCODING_OFFSET
    &&& {
        ||| raw[ENCODING_OFFSET as int] != LITTLE_ENDIAN
        ||| declared_machine(raw) matches Some(code) && match Width::spec_from_machine(code) {
            None => true,
            Some(width) => spec_parse_fields(raw, width) != Err::<ElfModel, FormatError>(
                FormatError::Truncated,
            ),
        }
    }
}

/// An input shorter than 64 bytes is rejected as `BadMagic` or as
/// `Truncated`, unless it is one of those that get past both kinds of check
/// ([`outlasts_truncation`]).
pub proof fn lemma_short_input_rejected(raw: Seq<u8>)
    requires
        raw.len() < 0x40,
        !outlasts_truncation(raw),
    ensures
        spec_parse(raw) == Err::<ElfModel, FormatError>(FormatError::BadMagic) || spec_parse(raw)
            == Err::<ElfModel, FormatError>(FormatError::Truncated),
{
}

/// The inputs that [`lemma_short_input_rejected`] leaves out are the only
/// ones that it does not hold of: whatever its length, an input that
/// outlasts truncation is rejected neither as `BadMagic` nor as `Truncated`.
pub proof fn lemma_outlasting_input_gets_further(raw: Seq<u8>)
    requires
        outlasts_truncation(raw),
    ensures
        spec_parse(raw) != Err::<ElfModel, FormatError>(FormatError::BadMagic),
        spec_parse(raw) != Err::<ElfModel, FormatError>(FormatError::Truncated),
{
    let code = declared_machine(raw).unwrap();
    match Width::spec_from_machine(code) {
        None => {},
        Some(width) => {
            let layout = width.spec_layout();
            match (
                spec_field(raw, 0, layout.table_offset),
                spec_field(raw, 0, layout.entry_size),
                spec_field(raw, 0, layout.entry_count),
            ) {
                (Ok(table_offset), Ok(entry_size), Ok(entry_count)) => {
                    lemma_bounds_errors(
                        raw,
                        width,
                        table_offset,
                        entry_size as u16,
                        entry_count as usize as nat,
                    );
                },
                _ => {},
            }
        },
    }
}

/// An input shorter than 46 bytes, the end of the last header field of the
/// narrower layout, is never read successfully.
pub proof fn lemma_header_needs_46_bytes(raw: Seq<u8>)
    requires
        raw.len() < 0x2e,
    ensures
        spec_parse(raw) is Err,
{
}

/// Two outcomes of reading the same bytes are the same outcome: the same
/// error, or objects that agree in every field.
pub proof fn lemma_parse_is_deterministic(
    raw: &[u8],
    again: &[u8],
    first: Result<ElfParser<'_>, FormatError>,
    second: Result<ElfParser<'_>, FormatError>,
)
    requires
        raw@ == again@,
        parse_view(first) == spec_parse(raw@),
        parse_view(second) == spec_parse(again@),
    ensures
        parse_view(first) == parse_view(second),
{
}

/// An input that identifies as a little-endian ELF file and declares a
/// machine other than the two supported ones is rejected as
/// `UnsupportedMachine`, whatever else it holds.
pub proof fn lemma_unsupported_machine(raw: Seq<u8>)
    requires
        identifies_as_little_endian(raw),
        declared_machine(raw) matches Some(code) && Width::spec_from_machine(code) is None,
    ensures
        spec_parse(raw) == Err::<ElfModel, FormatError>(FormatError::UnsupportedMachine),
{
}

/// What a successful read fixes: the object keeps the input, and its bounds
/// are those that the walk over its own segment table gives.
pub proof fn lemma_parsed_bounds(raw: Seq<u8>, object: ElfModel)
    requires
        spec_parse(raw) == Ok::<ElfModel, FormatError>(object),
    ensures
        object.raw == raw,
        spec_bounds(
            raw,
            object.width,
            object.segment_table_offset,
            object.segment_entry_size,
            object.segment_count as nat,
        ) == Ok::<(u64, u64), FormatError>((object.image_base, object.image_end)),
{
}

/// The entry at `start` is a load segment at the address `address`.
pub open spec fn starts_at(raw: Seq<u8>, width: Width, start: int, address: u64) -> bool {
    spec_extent(raw, width, start) matches Ok(Some((first, _))) && first == address
}

/// The entry at `start` is a load segment whose memory ends at `end`.
pub open spec fn ends_at(raw: Seq<u8>, width: Width, start: int, end: u64) -> bool {
    spec_extent(raw, width, start) matches Ok(Some((first, size))) && first + size == end
}

/// The bounds enclose every load segment of the table: none starts below the
/// base and none ends above the end. So the base is at most the end whenever
/// the table holds a load segment.
pub proof fn lemma_bounds_enclose_load_segments(
    raw: Seq<u8>,
    width: Width,
    table_offset: u64,
    entry_size: u16,
    count: nat,
    index: nat,
)
    requires
        index < count,
        spec_bounds(raw, width, table_offset, entry_size, count) is Ok,
        spec_extent(raw, width, spec_entry_start(table_offset, entry_size, index as int))
            matches Ok(Some(_)),
    ensures
        ({
            let (base, end) = spec_bounds(raw, width, table_offset, entry_size, count).unwrap();
            let (address, size) = spec_extent(
                raw,
                width,
                spec_entry_start(table_offset, entry_size, index as int),
            ).unwrap().unwrap();
            base <= address && address + size <= end
        }),
    decreases count,
{
    let before = spec_bounds(raw, width, table_offset, entry_size, (count - 1) as nat);
    assert(before is Ok);
    if index < count - 1 {
        lemma_bounds_enclose_load_segments(
            raw,
            width,
            table_offset,
            entry_size,
            (count - 1) as nat,
            index,
        );
    }
}

/// A table without load segments leaves the bounds unset; otherwise the base
/// is the address of one of its load segments and the end is the end of one
/// of them.
pub proof fn lemma_bounds_are_attained(
    raw: Seq<u8>,
    width: Width,
    table_offset: u64,
    entry_size: u16,
    count: nat,
)
    requires
        spec_bounds(raw, width, table_offset, entry_size, count) is Ok,
    ensures
        ({
            let (base, end) = spec_bounds(raw, width, table_offset, entry_size, count).unwrap();
            ||| {
                &&& base == UNSET_BASE
                &&& end == 0
                &&& forall|index: int|
                    0 <= index < count ==> #[trigger] spec_extent(
                        raw,
                        width,
                        spec_entry_start(table_offset, entry_size, index),
                    ) == Ok::<Option<(u64, u64)>, FormatError>(None)
            }
            ||| {
                &&& exists|lowest: int|
                    0 <= lowest < count && starts_at(
                        raw,
                        width,
                        #[trigger] spec_entry_start(table_offset, entry_size, lowest),
                        base,
                    )
                &&& exists|highest: int|
                    0 <= highest < count && ends_at(
                        raw,
                        width,
                        #[trigger] spec_entry_start(table_offset, entry_size, highest),
                        end,
                    )
            }
        }),
    decreases count,
{
    if count > 0 {
        let shorter = (count - 1) as nat;
        assert(spec_bounds(raw, width, table_offset, entry_size, shorter) is Ok);
        lemma_bounds_are_attained(raw, width, table_offset, entry_size, shorter);
        let (old_base, old_end) = spec_bounds(
            raw,
            width,
            table_offset,
            entry_size,
            shorter,
        ).unwrap();
        let (base, end) = spec_bounds(raw, width, table_offset, entry_size, count).unwrap();
        let last = spec_entry_start(table_offset, entry_size, count - 1);
        if exists|lowest: int|
            0 <= lowest < shorter && starts_at(
                raw,
                width,
                #[trigger] spec_entry_start(table_offset, entry_size, lowest),
                old_base,
            ) {
            let lowest = choose|lowest: int|
                0 <= lowest < shorter && starts_at(
                    raw,
                    width,
                    #[trigger] spec_entry_start(table_offset, entry_size, lowest),
                    old_base,
                );
            let highest = choose|highest: int|
                0 <= highest < shorter && ends_at(
                    raw,
                    width,
                    #[trigger] spec_entry_start(table_offset, entry_size, highest),
                    old_end,
                );
            let new_lowest = if starts_at(raw, width, last, base) { count - 1 } else { lowest };
            let new_highest = if ends_at(raw, width, last, end) { count - 1 } else { highest };
            assert(starts_at(
                raw,
                width,
                spec_entry_start(table_offset, entry_size, new_lowest),
                base,
            ));
            assert(ends_at(
                raw,
                width,
                spec_entry_start(table_offset, entry_size, new_highest),
                end,
            ));
        } else if spec_extent(raw, width, last) is Ok && spec_extent(raw, width, last).unwrap()
            is Some {
            assert(starts_at(raw, width, last, base));
            assert(ends_at(raw, width, last, end));
        }
    }
}

/// An object without load segments has its bounds left unset and cannot be
/// flattened.
pub proof fn lemma_no_load_segment_no_image(raw: Seq<u8>, object: ElfModel)
    requires
        spec_parse(raw) == Ok::<ElfModel, FormatError>(object),
        forall|index: int|
            0 <= index < object.segment_count ==> #[trigger] spec_extent(
                raw,
                object.width,
                spec_entry_start(object.segment_table_offset, object.segment_entry_size, index),
            ) == Ok::<Option<(u64, u64)>, FormatError>(None),
    ensures
        object.image_base == UNSET_BASE,
        object.image_end == 0,
        spec_flatten(object) == Err::<FlatImageModel, FlattenError>(
            FlattenError::EmptyOrInvalidRange,
        ),
{
    lemma_parsed_bounds(raw, object);
    lemma_bounds_are_attained(
        raw,
        object.width,
        object.segment_table_offset,
        object.segment_entry_size,
        object.segment_count as nat,
    );
}

// ----------------------------------------------------------------------
// The flattener
// ----------------------------------------------------------------------

/// Entry `index` of the segment table is a load segment that writes the byte
/// at distance `k` from the image base.
pub open spec fn writes(object: ElfModel, index: int, k: int) -> bool {
    spec_segment_at(object, index) matches Ok(segment) && segment.segment_type == PTYPE_LOAD
        && covers(segment, object.image_base, k)
}

/// The file byte that entry `index` holds for distance `k` from the image
/// base.
pub open spec fn written_byte(object: ElfModel, index: int, k: int) -> u8 {
    let segment = spec_segment_at(object, index).unwrap();
    segment.file_bytes[k - (segment.virtual_address - object.image_base)]
}

/// The last writer wins: where load segments overlap, each byte of the image
/// is the file byte of the last entry in table order that writes it.
pub proof fn lemma_last_writer_wins(object: ElfModel, count: nat, winner: int, k: int)
    requires
        0 <= winner < count,
        0 <= k < spec_image_size(object),
        writes(object, winner, k),
        forall|later: int| winner < later < count ==> !#[trigger] writes(object, later, k),
    ensures
        spec_image(object, count)[k] == written_byte(object, winner, k),
    decreases count,
{
    lemma_image_len(object, (count - 1) as nat);
    if winner < count - 1 {
        assert(!writes(object, count - 1, k));
        lemma_last_writer_wins(object, (count - 1) as nat, winner, k);
    }
}

/// A byte of the image that no load segment writes is zero.
pub proof fn lemma_unwritten_is_zero(object: ElfModel, count: nat, k: int)
    requires
        0 <= k < spec_image_size(object),
        forall|index: int| 0 <= index < count ==> !#[trigger] writes(object, index, k),
    ensures
        spec_image(object, count)[k] == 0,
    decreases count,
{
    if count > 0 {
        lemma_image_len(object, (count - 1) as nat);
        assert(!writes(object, count - 1, k));
        lemma_unwritten_is_zero(object, (count - 1) as nat, k);
    }
}

/// The memory of a load segment beyond its file bytes is zero in the image,
/// wherever no other load segment writes it.
pub proof fn lemma_memory_beyond_file_is_zero(object: ElfModel, count: nat, index: int, k: int)
    requires
        0 <= index < count,
        0 <= k < spec_image_size(object),
        spec_segment_at(object, index) matches Ok(segment) && {
            &&& segment.segment_type == PTYPE_LOAD
            &&& segment.file_bytes.len() < segment.memory_size
            &&& segment.virtual_address - object.image_base + segment.file_bytes.len() <= k
            &&& k < segment.virtual_address - object.image_base + segment.memory_size
        },
        forall|other: int|
            0 <= other < count && other != index ==> !#[trigger] writes(object, other, k),
    ensures
        spec_image(object, count)[k] == 0,
{
    assert(!writes(object, index, k));
    lemma_unwritten_is_zero(object, count, k);
}

/// An object whose entry point lies outside its image bounds is never
/// flattened: no image comes out with an entry point cut to fit.
pub proof fn lemma_entry_point_outside_is_rejected(object: ElfModel)
    requires
        object.entry_point < object.image_base || object.image_end < object.entry_point,
    ensures
        spec_flatten(object) is Err,
{
}

/// Where the image range is valid and no entry of the segment table is at
/// fault, an entry point outside the image bounds is reported as
/// `EntryPointOutOfRange`.
pub proof fn lemma_entry_point_out_of_range(object: ElfModel)
    requires
        object.entry_point < object.image_base || object.image_end < object.entry_point,
        !invalid_range(object),
        spec_segment_fault(object, object.segment_count as nat) is None,
    ensures
        spec_flatten(object) == Err::<FlatImageModel, FlattenError>(
            FlattenError::EntryPointOutOfRange,
        ),
{
}

/// A flattened image holds one byte for each address from the base to the
/// end of the object, and carries the object's entry point and base
/// unchanged.
pub proof fn lemma_flattened_image_shape(object: ElfModel)
    requires
        spec_flatten(object) is Ok,
    ensures
        spec_flatten(object).unwrap().bytes.len() == object.image_end - object.image_base + 1,
        spec_flatten(object).unwrap().entry_point == object.entry_point,
        spec_flatten(object).unwrap().image_base == object.image_base,
        object.image_base <= object.entry_point <= object.image_end,
{
    lemma_image_len(object, object.segment_count as nat);
}

/// The segment table is at fault in two ways only: an entry cannot be
/// decoded because it, or its file bytes, lie beyond the input, or a load
/// segment lies outside the image.
pub proof fn lemma_segment_fault_kinds(object: ElfModel, count: nat)
    ensures
        spec_segment_fault(object, count) matches Some(fault) ==> fault == FlattenError::Format(
            FormatError::Truncated,
        ) || fault == FlattenError::SegmentOutOfRange,
    decreases count,
{
    if count > 0 {
        lemma_segment_fault_kinds(object, (count - 1) as nat);
    }
}

/// The walk that finds the bounds and the decoding of a descriptor read the
/// same address and memory size from a load segment.
pub proof fn lemma_extent_matches_segment(raw: Seq<u8>, width: Width, start: int)
    requires
        spec_segment(raw, width, start) matches Ok(segment) && segment.segment_type == PTYPE_LOAD,
    ensures
        spec_extent(raw, width, start) == Ok::<Option<(u64, u64)>, FormatError>(
            Some(
                (
                    spec_segment(raw, width, start).unwrap().virtual_address,
                    spec_segment(raw, width, start).unwrap().memory_size,
                ),
            ),
        ),
{
}

/// In an object that the reader accepted, the bytes of every load segment
/// lie inside the image.
pub proof fn lemma_parsed_segments_are_placed(raw: Seq<u8>, object: ElfModel, index: int)
    requires
        spec_parse(raw) == Ok::<ElfModel, FormatError>(object),
        0 <= index < object.segment_count,
        spec_segment_at(object, index) matches Ok(segment) && segment.segment_type == PTYPE_LOAD,
    ensures
        placed(spec_segment_at(object, index).unwrap(), object.image_base, spec_image_size(object)),
{
    lemma_parsed_bounds(raw, object);
    let start = spec_entry_start(object.segment_table_offset, object.segment_entry_size, index);
    lemma_extent_matches_segment(raw, object.width, start);
    lemma_bounds_enclose_load_segments(
        raw,
        object.width,
        object.segment_table_offset,
        object.segment_entry_size,
        object.segment_count as nat,
        index as nat,
    );
}

/// Flattening an object that the reader accepted never fails with
/// `SegmentOutOfRange`.
pub proof fn lemma_parsed_object_has_no_stray_segment(raw: Seq<u8>, object: ElfModel, count: nat)
    requires
        spec_parse(raw) == Ok::<ElfModel, FormatError>(object),
        count <= object.segment_count,
    ensures
        spec_segment_fault(object, count) != Some(FlattenError::SegmentOutOfRange),
        spec_flatten(object) != Err::<FlatImageModel, FlattenError>(
            FlattenError::SegmentOutOfRange,
        ),
{
    lemma_segment_faults_of_parsed(raw, object, count);
    lemma_segment_faults_of_parsed(raw, object, object.segment_count as nat);
}

/// Among the first `count` entries of an accepted object, no load segment
/// is the first fault.
proof fn lemma_segment_faults_of_parsed(raw: Seq<u8>, object: ElfModel, count: nat)
    requires
        spec_parse(raw) == Ok::<ElfModel, FormatError>(object),
        count <= object.segment_count,
    ensures
        spec_segment_fault(object, count) != Some(FlattenError::SegmentOutOfRange),
    decreases count,
{
    if count > 0 {
        lemma_segment_faults_of_parsed(raw, object, (count - 1) as nat);
        if spec_segment_at(object, count - 1) matches Ok(segment) && segment.segment_type
            == PTYPE_LOAD {
            lemma_parsed_segments_are_placed(raw, object, count - 1);
        }
    }
}

} // verus!
