//! Little-endian fields at byte positions of an input buffer.

use crate::error::FormatError;
use vstd::prelude::*;

verus! {

/// The number that a run of bytes spells, least significant byte first.
pub open spec fn le_value(bytes: Seq<u8>) -> nat
    decreases bytes.len(),
{
    if bytes.len() == 0 {
        0
    } else {
        bytes[0] as nat + 256 * le_value(bytes.drop_first())
    }
}

/// 256 to the power `n`: the number of values that `n` bytes can spell.
pub open spec fn byte_span(n: nat) -> nat
    decreases n,
{
    if n == 0 {
        1
    } else {
        256 * byte_span((n - 1) as nat)
    }
}

/// Whether `width` bytes starting at `position` all lie inside an input of
/// `len` bytes.
pub open spec fn in_bounds(len: nat, position: int, width: int) -> bool {
    0 <= position && 0 <= width && position + width <= len
}

/// The field of `width` bytes at `position`, or `Truncated` where the input
/// ends before the field does.
pub open spec fn spec_read_le(raw: Seq<u8>, position: int, width: int) -> Result<u64, FormatError> {
    if in_bounds(raw.len(), position, width) {
        Ok(le_value(raw.subrange(position, position + width)) as u64)
    } else {
        Err(FormatError::Truncated)
    }
}

/// A run of `n` bytes spells a number below 256 to the power `n`.
pub proof fn lemma_le_value_bound(bytes: Seq<u8>)
    ensures
        le_value(bytes) < byte_span(bytes.len()),
    decreases bytes.len(),
{
    if bytes.len() > 0 {
        lemma_le_value_bound(bytes.drop_first());
    }
}

/// A field of at most eight bytes is read without loss: the 64 bits that
/// [`spec_read_le`] gives hold the whole number that the bytes spell.
pub proof fn lemma_read_le_is_exact(raw: Seq<u8>, position: int, width: int)
    requires
        width <= 8,
        in_bounds(raw.len(), position, width),
    ensures
        spec_read_le(raw, position, width) == Ok::<u64, FormatError>(
            le_value(raw.subrange(position, position + width)) as u64,
        ),
        le_value(raw.subrange(position, position + width)) < byte_span(width as nat),
        le_value(raw.subrange(position, position + width)) <= u64::MAX,
{
    lemma_le_value_bound(raw.subrange(position, position + width));
    lemma_byte_span_monotonic(width as nat, 8);
    lemma_byte_span_values();
}

/// The spans of the field widths that occur in an ELF file.
pub proof fn lemma_byte_span_values()
    ensures
        byte_span(0) == 1,
        byte_span(1) == 0x100,
        byte_span(2) == 0x1_0000,
        byte_span(4) == 0x1_0000_0000,
        byte_span(8) == 0x1_0000_0000_0000_0000,
{
    reveal_with_fuel(byte_span, 9);
}

/// Reads the little-endian field of `width` bytes at `position`.
///
/// The position is taken in 128 bits, wide enough that no sum of header
/// values can wrap before it is compared with the input's length.
pub fn read_le(raw: &[u8], position: u128, width: usize) -> (r: Result<u64, FormatError>)
    requires
        width <= 8,
    ensures
        r == spec_read_le(raw@, position as int, width as int),
        r matches Ok(value) ==> value < byte_span(width as nat),
{
    let len: usize = raw.len();
    if position > len as u128 || (len as u128) - position < width as u128 {
        return Err(FormatError::Truncated);
    }
    let start: usize = position as usize;
    let ghost field = raw@.subrange(start as int, start + width);
    let mut value: u64 = 0;
    let mut i: usize = width;
    while i > 0
        invariant
            i <= width <= 8,
            start + width <= len,
            len == raw@.len(),
            field == raw@.subrange(start as int, start + width),
            value == le_value(field.subrange(i as int, width as int)),
            value < byte_span((width - i) as nat),
        decreases i,
    {
        i = i - 1;
        let byte: u8 = raw[start + i];
        proof {
            let tail = field.subrange(i + 1, width as int);
            let now = field.subrange(i as int, width as int);
            assert(now.drop_first() =~= tail);
            assert(now[0] == byte);
            lemma_byte_span_step(value as nat, byte, (width - i - 1) as nat);
        }
        value = value * 256 + byte as u64;
    }
    proof {
        assert(field.subrange(0, width as int) =~= field);
    }
    Ok(value)
}

/// One more byte below a value under the span of `n` bytes keeps it under the
/// span of `n + 1` bytes, and under 64 bits while `n` is below eight.
proof fn lemma_byte_span_step(value: nat, byte: u8, n: nat)
    requires
        value < byte_span(n),
        n < 8,
    ensures
        value * 256 + byte < byte_span(n + 1),
        byte_span(n + 1) <= 0x1_0000_0000_0000_0000,
{
    reveal_with_fuel(byte_span, 9);
    lemma_byte_span_monotonic(n + 1, 8);
}

/// The span grows with the number of bytes.
proof fn lemma_byte_span_monotonic(a: nat, b: nat)
    requires
        a <= b,
    ensures
        byte_span(a) <= byte_span(b),
    decreases b,
{
    if a < b {
        lemma_byte_span_monotonic(a, (b - 1) as nat);
    }
}

} // verus!
