//! The image flattener: from a parsed object to the bytes of its memory
//! image.
//!
//! The image spans the addresses from the object's image base to its image
//! end, both included. It starts out as zeros; then each load segment, in
//! table order, writes its file bytes at its address. Where two segments
//! overlap, the later one therefore decides, and where none writes, the
//! zeros stay.

use crate::error::FlattenError;
use crate::reader::{spec_parse, ElfModel, ElfParser, PTYPE_LOAD, UNSET_BASE};
use crate::segment::{spec_segment_at, SegmentDescriptor, SegmentModel};
use vstd::prelude::*;

verus! {

/// A memory image ready to be placed at its base address.
#[derive(Debug, PartialEq, Eq)]
pub struct FlatImage {
    /// The address of the first instruction.
    pub entry_point: u32,
    /// The address at which the first byte of the image belongs.
    pub image_base: u32,
    /// The bytes of the image, from the base address on.
    pub bytes: Vec<u8>,
}

/// What a [`FlatImage`] stands for in specifications.
pub struct FlatImageModel {
    pub entry_point: u32,
    pub image_base: u32,
    pub bytes: Seq<u8>,
}

impl View for FlatImage {
    type V = FlatImageModel;

    open spec fn view(&self) -> FlatImageModel {
        FlatImageModel {
            entry_point: self.entry_point,
            image_base: self.image_base,
            bytes: self.bytes@,
        }
    }
}

/// The number of bytes that a segment writes into the image: its file
/// bytes, but no more than its memory size.
pub open spec fn copied_len(segment: SegmentModel) -> int {
    if segment.file_bytes.len() <= segment.memory_size {
        segment.file_bytes.len() as int
    } else {
        segment.memory_size as int
    }
}

/// The bytes that the segment writes lie inside an image of `size` bytes
/// that starts at address `base`.
pub open spec fn placed(segment: SegmentModel, base: u64, size: int) -> bool {
    &&& base <= segment.virtual_address
    &&& segment.virtual_address - base + copied_len(segment) <= size
}

/// The segment writes the byte at distance `k` from the image base.
pub open spec fn covers(segment: SegmentModel, base: u64, k: int) -> bool {
    segment.virtual_address - base <= k < segment.virtual_address - base + copied_len(segment)
}

/// The image after the segment has written its bytes over it.
pub open spec fn spec_overlay(image: Seq<u8>, segment: SegmentModel, base: u64) -> Seq<u8> {
    Seq::new(
        image.len(),
        |k: int|
            if covers(segment, base, k) {
                segment.file_bytes[k - (segment.virtual_address - base)]
            } else {
                image[k]
            },
    )
}

/// The number of addresses from the image base to the image end, both
/// included.
pub open spec fn spec_image_size(object: ElfModel) -> int {
    object.image_end - object.image_base + 1
}

/// The object's bounds do not describe an image that a buffer can hold: the
/// base is unset, the end lies below the base, or the image is larger than
/// `isize::MAX` bytes, the most that one allocation can have.
pub open spec fn invalid_range(object: ElfModel) -> bool {
    ||| object.image_base == UNSET_BASE
    ||| object.image_end < object.image_base
    ||| spec_image_size(object) > isize::MAX
}

/// The first thing wrong with the first `count` entries of the segment
/// table, if anything is: an entry that cannot be decoded, or a load
/// segment whose bytes do not lie inside the image.
pub open spec fn spec_segment_fault(object: ElfModel, count: nat) -> Option<FlattenError>
    decreases count,
{
    if count == 0 {
        None
    } else {
        match spec_segment_fault(object, (count - 1) as nat) {
            Some(fault) => Some(fault),
            None => match spec_segment_at(object, count - 1) {
                Err(e) => Some(FlattenError::Format(e)),
                Ok(segment) => if segment.segment_type == PTYPE_LOAD && !placed(
                    segment,
                    object.image_base,
                    spec_image_size(object),
                ) {
                    Some(FlattenError::SegmentOutOfRange)
                } else {
                    None
                },
            },
        }
    }
}

/// The image after the first `count` entries of the segment table: zeros,
/// overwritten by each load segment among them in table order.
pub open spec fn spec_image(object: ElfModel, count: nat) -> Seq<u8>
    decreases count,
{
    if count == 0 {
        Seq::new(spec_image_size(object) as nat, |k: int| 0u8)
    } else {
        let before = spec_image(object, (count - 1) as nat);
        match spec_segment_at(object, count - 1) {
            Ok(segment) => if segment.segment_type == PTYPE_LOAD {
                spec_overlay(before, segment, object.image_base)
            } else {
                before
            },
            Err(_) => before,
        }
    }
}

/// What [`flatten`] makes of an object.
///
/// The checks run in this order, and the first that fails decides the
/// error: the range of the image, the entries of the segment table from
/// the first to the last, the position of the entry point, and the width
/// of the entry point and the base.
pub open spec fn spec_flatten(object: ElfModel) -> Result<FlatImageModel, FlattenError> {
    if invalid_range(object) {
        Err(FlattenError::EmptyOrInvalidRange)
    } else {
        match spec_segment_fault(object, object.segment_count as nat) {
            Some(fault) => Err(fault),
            None => if object.entry_point < object.image_base || object.image_end
                < object.entry_point {
                Err(FlattenError::EntryPointOutOfRange)
            } else if object.entry_point > u32::MAX || object.image_base > u32::MAX {
                Err(FlattenError::AddressTooWide)
            } else {
                Ok(
                    FlatImageModel {
                        entry_point: object.entry_point as u32,
                        image_base: object.image_base as u32,
                        bytes: spec_image(object, object.segment_count as nat),
                    },
                )
            },
        }
    }
}

/// What [`flatten_img`] makes of the bytes of a file: the reader's error
/// where the reader rejects them, else what [`flatten`] makes of the object.
pub open spec fn spec_flatten_img(raw: Seq<u8>) -> Result<FlatImageModel, FlattenError> {
    match spec_parse(raw) {
        Err(e) => Err(FlattenError::Format(e)),
        Ok(object) => spec_flatten(object),
    }
}

/// What the outcome of flattening stands for in specifications.
pub open spec fn flat_view(outcome: Result<FlatImage, FlattenError>) -> Result<
    FlatImageModel,
    FlattenError,
> {
    match outcome {
        Ok(image) => Ok(image@),
        Err(e) => Err(e),
    }
}

/// The image keeps its size whatever is written over it.
pub proof fn lemma_image_len(object: ElfModel, count: nat)
    ensures
        spec_image(object, count).len() == spec_image_size(object) as nat,
    decreases count,
{
    if count > 0 {
        lemma_image_len(object, (count - 1) as nat);
    }
}

/// Once an entry of the segment table is at fault, that fault stays the
/// first one however many more entries the table has.
pub proof fn lemma_segment_fault_persists(object: ElfModel, failed: nat, count: nat)
    requires
        failed <= count,
        spec_segment_fault(object, failed) is Some,
    ensures
        spec_segment_fault(object, count) == spec_segment_fault(object, failed),
    decreases count,
{
    if failed < count {
        lemma_segment_fault_persists(object, failed, (count - 1) as nat);
    }
}

/// Writes a segment's file bytes into the image at the segment's address.
///
/// Fails, and leaves the image as it was, where those bytes would not all
/// lie inside the image.
pub fn place(image: &mut Vec<u8>, segment: &SegmentDescriptor<'_>, base: u64) -> (r: Result<
    (),
    FlattenError,
>)
    ensures
        match r {
            Ok(()) => {
                &&& placed(segment@, base, old(image)@.len() as int)
                &&& final(image)@ == spec_overlay(old(image)@, segment@, base)
            },
            Err(e) => {
                &&& e == FlattenError::SegmentOutOfRange
                &&& !placed(segment@, base, old(image)@.len() as int)
                &&& final(image)@ == old(image)@
            },
        },
{
    let size: usize = image.len();
    let source: &[u8] = segment.file_bytes;
    let count: usize = if source.len() as u64 <= segment.memory_size {
        source.len()
    } else {
        segment.memory_size as usize
    };
    if segment.virtual_address < base {
        return Err(FlattenError::SegmentOutOfRange);
    }
    let distance: u64 = segment.virtual_address - base;
    if distance > size as u64 || size as u64 - distance < count as u64 {
        return Err(FlattenError::SegmentOutOfRange);
    }
    let offset: usize = distance as usize;
    let mut done: usize = 0;
    while done < count
        invariant
            done <= count,
            count == copied_len(segment@),
            count <= source@.len(),
            source@ == segment@.file_bytes,
            offset == segment.virtual_address - base,
            offset + count <= size,
            image@.len() == size,
            size == old(image)@.len(),
            forall|k: int|
                0 <= k < size ==> image@[k] == if offset <= k < offset + done {
                    source@[k - offset]
                } else {
                    old(image)@[k]
                },
        decreases count - done,
    {
        image[offset + done] = source[done];
        done = done + 1;
    }
    assert(image@ =~= spec_overlay(old(image)@, segment@, base));
    Ok(())
}

/// Lays the load segments of a parsed object out as one memory image.
///
/// Succeeds exactly on the objects that pass every check of
/// [`spec_flatten`], with the image that it gives, and otherwise fails
/// with the error of the first check that does not pass.
pub fn flatten(parsed: &ElfParser<'_>) -> (r: Result<FlatImage, FlattenError>)
    ensures
        flat_view(r) == spec_flatten(parsed@),
        r matches Ok(image) ==> image.bytes@.len() == parsed.image_end - parsed.image_base + 1,
{
    if parsed.image_base == UNSET_BASE || parsed.image_end < parsed.image_base {
        return Err(FlattenError::EmptyOrInvalidRange);
    }
    let span: u64 = parsed.image_end - parsed.image_base;
    if span >= isize::MAX as u64 {
        return Err(FlattenError::EmptyOrInvalidRange);
    }
    let size: usize = (span + 1) as usize;
    let mut bytes: Vec<u8> = vec![0u8; size];
    assert(bytes@ =~= spec_image(parsed@, 0));

    let mut cursor = parsed.sections();
    loop
        invariant_except_break
            cursor.position <= parsed.segment_count,
        invariant
            cursor.object == *parsed,
            !invalid_range(parsed@),
            size == spec_image_size(parsed@),
            spec_segment_fault(parsed@, cursor.position as nat) is None,
            bytes@ == spec_image(parsed@, cursor.position as nat),
        ensures
            cursor.position == parsed.segment_count,
        decreases parsed.segment_count - cursor.position,
    {
        let ghost visited = cursor.position as nat;
        proof {
            lemma_image_len(parsed@, visited);
            if visited < parsed.segment_count && spec_segment_fault(parsed@, visited + 1) is Some {
                lemma_segment_fault_persists(parsed@, visited + 1, parsed.segment_count as nat);
            }
        }
        match cursor.next() {
            None => {
                break ;
            },
            Some(Err(e)) => {
                return Err(FlattenError::Format(e));
            },
            Some(Ok(segment)) => {
                if segment.segment_type == PTYPE_LOAD {
                    match place(&mut bytes, &segment, parsed.image_base) {
                        Ok(()) => {},
                        Err(e) => {
                            return Err(e);
                        },
                    }
                }
            },
        }
    }

    proof {
        lemma_image_len(parsed@, parsed.segment_count as nat);
    }
    if parsed.entry_point < parsed.image_base || parsed.image_end < parsed.entry_point {
        return Err(FlattenError::EntryPointOutOfRange);
    }
    if parsed.entry_point > u32::MAX as u64 || parsed.image_base > u32::MAX as u64 {
        return Err(FlattenError::AddressTooWide);
    }
    Ok(
        FlatImage {
            entry_point: parsed.entry_point as u32,
            image_base: parsed.image_base as u32,
            bytes,
        },
    )
}

/// Reads an object from the bytes of its file and flattens it.
pub fn flatten_img(raw: &[u8]) -> (r: Result<FlatImage, FlattenError>)
    ensures
        flat_view(r) == spec_flatten_img(raw@),
{
    match ElfParser::parse(raw) {
        Err(e) => Err(FlattenError::Format(e)),
        Ok(parsed) => flatten(&parsed),
    }
}

} // verus!
