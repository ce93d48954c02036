//! The header reader on hand-built objects of both widths.

use elf_parser::bytes::read_le;
use elf_parser::layout::{Field, Width};
use elf_parser::reader::{ElfParser, PTYPE_LOAD, UNSET_BASE};
use elf_parser::FormatError;

/// A 64-bit file header of 64 bytes.
fn header64(machine: u16, entry: u64, table_offset: u64, entry_size: u16, count: u16) -> Vec<u8> {
    let mut h = vec![0u8; 0x40];
    h[0] = 0x7f;
    h[1] = b'E';
    h[2] = b'L';
    h[3] = b'F';
    h[4] = 2;
    h[5] = 1;
    h[6] = 1;
    h[0x10..0x12].copy_from_slice(&2u16.to_le_bytes());
    h[0x12..0x14].copy_from_slice(&machine.to_le_bytes());
    h[0x14..0x18].copy_from_slice(&1u32.to_le_bytes());
    h[0x18..0x20].copy_from_slice(&entry.to_le_bytes());
    h[0x20..0x28].copy_from_slice(&table_offset.to_le_bytes());
    h[0x34..0x36].copy_from_slice(&0x40u16.to_le_bytes());
    h[0x36..0x38].copy_from_slice(&entry_size.to_le_bytes());
    h[0x38..0x3a].copy_from_slice(&count.to_le_bytes());
    h
}

/// One 64-bit segment table entry of 56 bytes.
fn entry64(kind: u32, flags: u32, file_offset: u64, address: u64, file_size: u64, memory_size: u64) -> Vec<u8> {
    let mut e = vec![0u8; 0x38];
    e[0x00..0x04].copy_from_slice(&kind.to_le_bytes());
    e[0x04..0x08].copy_from_slice(&flags.to_le_bytes());
    e[0x08..0x10].copy_from_slice(&file_offset.to_le_bytes());
    e[0x10..0x18].copy_from_slice(&address.to_le_bytes());
    e[0x18..0x20].copy_from_slice(&address.to_le_bytes());
    e[0x20..0x28].copy_from_slice(&file_size.to_le_bytes());
    e[0x28..0x30].copy_from_slice(&memory_size.to_le_bytes());
    e[0x30..0x38].copy_from_slice(&0x1000u64.to_le_bytes());
    e
}

/// A 32-bit file header of 52 bytes.
fn header32(machine: u16, entry: u32, table_offset: u32, entry_size: u16, count: u16) -> Vec<u8> {
    let mut h = vec![0u8; 0x34];
    h[0] = 0x7f;
    h[1] = b'E';
    h[2] = b'L';
    h[3] = b'F';
    h[4] = 1;
    h[5] = 1;
    h[6] = 1;
    h[0x10..0x12].copy_from_slice(&2u16.to_le_bytes());
    h[0x12..0x14].copy_from_slice(&machine.to_le_bytes());
    h[0x14..0x18].copy_from_slice(&1u32.to_le_bytes());
    h[0x18..0x1c].copy_from_slice(&entry.to_le_bytes());
    h[0x1c..0x20].copy_from_slice(&table_offset.to_le_bytes());
    h[0x28..0x2a].copy_from_slice(&0x34u16.to_le_bytes());
    h[0x2a..0x2c].copy_from_slice(&entry_size.to_le_bytes());
    h[0x2c..0x2e].copy_from_slice(&count.to_le_bytes());
    h
}

/// One 32-bit segment table entry of 32 bytes.
fn entry32(kind: u32, flags: u32, file_offset: u32, address: u32, file_size: u32, memory_size: u32) -> Vec<u8> {
    let mut e = vec![0u8; 0x20];
    e[0x00..0x04].copy_from_slice(&kind.to_le_bytes());
    e[0x04..0x08].copy_from_slice(&file_offset.to_le_bytes());
    e[0x08..0x0c].copy_from_slice(&address.to_le_bytes());
    e[0x0c..0x10].copy_from_slice(&address.to_le_bytes());
    e[0x10..0x14].copy_from_slice(&file_size.to_le_bytes());
    e[0x14..0x18].copy_from_slice(&memory_size.to_le_bytes());
    e[0x18..0x1c].copy_from_slice(&flags.to_le_bytes());
    e[0x1c..0x20].copy_from_slice(&0x1000u32.to_le_bytes());
    e
}

/// A 64-bit object with one load segment of 0x20 bytes at 0x100000.
fn single_segment_object() -> Vec<u8> {
    let mut raw = header64(0x3e, 0x100004, 0x40, 0x38, 1);
    raw.extend(entry64(PTYPE_LOAD, 5, 0x78, 0x100000, 0x20, 0x20));
    raw.extend((1..=0x20u8).collect::<Vec<u8>>());
    raw
}

#[test]
fn read_le_decodes_least_significant_byte_first() {
    let raw = [0x78u8, 0x56, 0x34, 0x12, 0xef, 0xcd, 0xab, 0x90, 0xff];
    assert_eq!(read_le(&raw, 0, 2), Ok(0x5678));
    assert_eq!(read_le(&raw, 0, 4), Ok(0x1234_5678));
    assert_eq!(read_le(&raw, 0, 8), Ok(0x90ab_cdef_1234_5678));
    assert_eq!(read_le(&raw, 1, 8), Ok(0xff90_abcd_ef12_3456));
    assert_eq!(read_le(&raw, 8, 1), Ok(0xff));
    assert_eq!(read_le(&raw, 3, 0), Ok(0));
}

#[test]
fn read_le_reports_fields_past_the_end() {
    let raw = [1u8, 2, 3, 4];
    assert_eq!(read_le(&raw, 0, 4), Ok(0x0403_0201));
    assert_eq!(read_le(&raw, 1, 4), Err(FormatError::Truncated));
    assert_eq!(read_le(&raw, 4, 1), Err(FormatError::Truncated));
    assert_eq!(read_le(&raw, 4, 0), Ok(0));
    assert_eq!(read_le(&raw, 5, 0), Err(FormatError::Truncated));
    assert_eq!(read_le(&raw, u128::MAX, 8), Err(FormatError::Truncated));
    assert_eq!(read_le(&raw, 1 << 64, 2), Err(FormatError::Truncated));
    assert_eq!(read_le(&[], 0, 1), Err(FormatError::Truncated));
}

#[test]
fn machine_codes_select_the_width() {
    assert_eq!(Width::from_machine(0x03), Some(Width::Bits32));
    assert_eq!(Width::from_machine(0x3e), Some(Width::Bits64));
    assert_eq!(Width::from_machine(0x00), None);
    assert_eq!(Width::from_machine(0x28), None);
    assert_eq!(Width::from_machine(0xb7), None);
    assert_eq!(Width::from_machine(0x3e03), None);
}

#[test]
fn layouts_hold_the_documented_positions() {
    let narrow = Width::Bits32.layout();
    assert_eq!(narrow.entry_point, Field { offset: 0x18, width: 4 });
    assert_eq!(narrow.table_offset, Field { offset: 0x1c, width: 4 });
    assert_eq!(narrow.entry_size, Field { offset: 0x2a, width: 2 });
    assert_eq!(narrow.entry_count, Field { offset: 0x2c, width: 2 });
    assert_eq!(narrow.segment_type, Field { offset: 0x00, width: 4 });
    assert_eq!(narrow.file_offset, Field { offset: 0x04, width: 4 });
    assert_eq!(narrow.virtual_address, Field { offset: 0x08, width: 4 });
    assert_eq!(narrow.file_size, Field { offset: 0x10, width: 4 });
    assert_eq!(narrow.memory_size, Field { offset: 0x14, width: 4 });
    assert_eq!(narrow.flags, Field { offset: 0x18, width: 4 });

    let wide = Width::Bits64.layout();
    assert_eq!(wide.entry_point, Field { offset: 0x18, width: 8 });
    assert_eq!(wide.table_offset, Field { offset: 0x20, width: 8 });
    assert_eq!(wide.entry_size, Field { offset: 0x36, width: 2 });
    assert_eq!(wide.entry_count, Field { offset: 0x38, width: 2 });
    assert_eq!(wide.segment_type, Field { offset: 0x00, width: 4 });
    assert_eq!(wide.flags, Field { offset: 0x04, width: 4 });
    assert_eq!(wide.file_offset, Field { offset: 0x08, width: 8 });
    assert_eq!(wide.virtual_address, Field { offset: 0x10, width: 8 });
    assert_eq!(wide.file_size, Field { offset: 0x20, width: 8 });
    assert_eq!(wide.memory_size, Field { offset: 0x28, width: 8 });
}

#[test]
fn parse_rejects_input_without_magic() {
    assert_eq!(ElfParser::parse(&[]), Err(FormatError::BadMagic));
    assert_eq!(ElfParser::parse(&[0x7f]), Err(FormatError::BadMagic));
    assert_eq!(ElfParser::parse(&[0x7f, b'E', b'L']), Err(FormatError::BadMagic));
    assert_eq!(ElfParser::parse(b"\x7fELG\x02\x01\x01"), Err(FormatError::BadMagic));
    let mut raw = single_segment_object();
    raw[0] = 0x7e;
    assert_eq!(ElfParser::parse(&raw), Err(FormatError::BadMagic));
}

#[test]
fn parse_wants_the_encoding_byte() {
    assert_eq!(ElfParser::parse(b"\x7fELF"), Err(FormatError::Truncated));
    assert_eq!(ElfParser::parse(b"\x7fELF\x02"), Err(FormatError::Truncated));
}

#[test]
fn parse_rejects_other_encodings_than_little_endian() {
    let mut raw = single_segment_object();
    raw[5] = 2;
    assert_eq!(ElfParser::parse(&raw), Err(FormatError::UnsupportedEndianness));
    raw[5] = 0;
    assert_eq!(ElfParser::parse(&raw), Err(FormatError::UnsupportedEndianness));
    assert_eq!(ElfParser::parse(b"\x7fELF\x02\x02"), Err(FormatError::UnsupportedEndianness));
}

#[test]
fn parse_wants_the_machine_code() {
    let raw = single_segment_object();
    for len in 6..0x14 {
        assert_eq!(ElfParser::parse(&raw[..len]), Err(FormatError::Truncated), "length {len}");
    }
}

#[test]
fn parse_rejects_unsupported_machines_whatever_follows() {
    let mut raw = single_segment_object();
    raw[0x12] = 0xb7;
    assert_eq!(ElfParser::parse(&raw), Err(FormatError::UnsupportedMachine));
    // Neither a missing table nor an overflowing segment changes the verdict.
    assert_eq!(ElfParser::parse(&raw[..0x14]), Err(FormatError::UnsupportedMachine));
    let mut overflowing = header64(0x28, 0, 0x40, 0x38, 1);
    overflowing.extend(entry64(PTYPE_LOAD, 0, 0, u64::MAX, 0, 2));
    assert_eq!(ElfParser::parse(&overflowing), Err(FormatError::UnsupportedMachine));
    // The high byte of the code counts too.
    let mut high = single_segment_object();
    high[0x13] = 0x01;
    assert_eq!(ElfParser::parse(&high), Err(FormatError::UnsupportedMachine));
}

#[test]
fn parse_short_inputs_never_succeed() {
    let wide = single_segment_object();
    for len in 0..0x3a {
        let r = ElfParser::parse(&wide[..len]);
        assert!(
            r == Err(FormatError::BadMagic) || r == Err(FormatError::Truncated),
            "64-bit prefix of length {len}: {r:?}"
        );
    }
    let narrow = header32(0x03, 0x8000, 0x34, 0x20, 0);
    for len in 0..0x2e {
        let r = ElfParser::parse(&narrow[..len]);
        assert!(
            r == Err(FormatError::BadMagic) || r == Err(FormatError::Truncated),
            "32-bit prefix of length {len}: {r:?}"
        );
    }
}

#[test]
fn parse_accepts_a_bare_32_bit_header() {
    // 46 bytes hold every header field of the narrow layout.
    let raw = header32(0x03, 0x8000, 0x34, 0x20, 0);
    let parsed = ElfParser::parse(&raw[..0x2e]).unwrap();
    assert_eq!(parsed.width, Width::Bits32);
    assert_eq!(parsed.entry_point, 0x8000);
    assert_eq!(parsed.segment_table_offset, 0x34);
    assert_eq!(parsed.segment_entry_size, 0x20);
    assert_eq!(parsed.segment_count, 0);
    assert_eq!(parsed.image_base, UNSET_BASE);
    assert_eq!(parsed.image_end, 0);
}

#[test]
fn parse_single_load_segment_64() {
    let raw = single_segment_object();
    let parsed = ElfParser::parse(&raw).unwrap();
    assert_eq!(parsed.width, Width::Bits64);
    assert_eq!(parsed.image_base, 0x100000);
    assert_eq!(parsed.image_end, 0x100020);
    assert_eq!(parsed.entry_point, 0x100004);
    assert_eq!(parsed.segment_table_offset, 0x40);
    assert_eq!(parsed.segment_entry_size, 0x38);
    assert_eq!(parsed.segment_count, 1);
    assert_eq!(parsed.raw, &raw[..]);
}

#[test]
fn parse_reads_the_32_bit_layout() {
    let mut raw = header32(0x03, 0x0804_8010, 0x34, 0x20, 2);
    raw.extend(entry32(PTYPE_LOAD, 5, 0x74, 0x0804_8000, 4, 0x10));
    raw.extend(entry32(PTYPE_LOAD, 6, 0x78, 0x0804_9000, 4, 0x2000));
    raw.extend([1u8, 2, 3, 4, 5, 6, 7, 8]);
    let parsed = ElfParser::parse(&raw).unwrap();
    assert_eq!(parsed.width, Width::Bits32);
    assert_eq!(parsed.entry_point, 0x0804_8010);
    assert_eq!(parsed.segment_table_offset, 0x34);
    assert_eq!(parsed.segment_entry_size, 0x20);
    assert_eq!(parsed.segment_count, 2);
    assert_eq!(parsed.image_base, 0x0804_8000);
    assert_eq!(parsed.image_end, 0x0804_b000);
}

#[test]
fn parse_takes_the_lowest_base_and_the_highest_end() {
    let mut raw = header64(0x3e, 0x5000, 0x40, 0x38, 4);
    raw.extend(entry64(PTYPE_LOAD, 4, 0, 0x5000, 0, 0x100));
    raw.extend(entry64(PTYPE_LOAD, 4, 0, 0x2000, 0, 0x10));
    raw.extend(entry64(2, 4, 0, 0x10, 0, 0x9_0000));
    raw.extend(entry64(PTYPE_LOAD, 4, 0, 0x3000, 0, 0x4000));
    let parsed = ElfParser::parse(&raw).unwrap();
    assert_eq!(parsed.image_base, 0x2000);
    assert_eq!(parsed.image_end, 0x7000);
}

#[test]
fn parse_honours_the_entry_size() {
    // Entries 0x40 bytes apart: eight bytes of padding follow each.
    let mut raw = header64(0x3e, 0x7000, 0x40, 0x40, 2);
    raw.extend(entry64(PTYPE_LOAD, 4, 0, 0x7000, 0, 0x10));
    raw.extend([0xffu8; 8]);
    raw.extend(entry64(PTYPE_LOAD, 4, 0, 0x6000, 0, 0x10));
    let parsed = ElfParser::parse(&raw).unwrap();
    assert_eq!(parsed.segment_entry_size, 0x40);
    assert_eq!(parsed.image_base, 0x6000);
    assert_eq!(parsed.image_end, 0x7010);
}

#[test]
fn parse_without_load_segments_leaves_the_bounds_unset() {
    let mut raw = header64(0x3e, 0x1000, 0x40, 0x38, 2);
    raw.extend(entry64(6, 4, 0x40, 0x40, 0x70, 0x70));
    raw.extend(entry64(0x6474_e551, 6, 0, 0, 0, 0));
    let parsed = ElfParser::parse(&raw).unwrap();
    assert_eq!(parsed.segment_count, 2);
    assert_eq!(parsed.image_base, UNSET_BASE);
    assert_eq!(parsed.image_base, u64::MAX);
    assert_eq!(parsed.image_end, 0);
}

#[test]
fn parse_reads_only_the_type_of_other_segments() {
    // The last entry is cut off right after its type; it is no load segment.
    let mut raw = header64(0x3e, 0x1000, 0x40, 0x38, 2);
    raw.extend(entry64(PTYPE_LOAD, 4, 0, 0x1000, 0, 0x10));
    raw.extend(4u32.to_le_bytes());
    let parsed = ElfParser::parse(&raw).unwrap();
    assert_eq!(parsed.image_base, 0x1000);
    assert_eq!(parsed.image_end, 0x1010);
    // The same cut through a load segment is an error.
    let len = raw.len();
    raw[len - 4..].copy_from_slice(&PTYPE_LOAD.to_le_bytes());
    assert_eq!(ElfParser::parse(&raw), Err(FormatError::Truncated));
}

#[test]
fn parse_reports_a_table_beyond_the_input() {
    let raw = header64(0x3e, 0x1000, 0x40, 0x38, 1);
    assert_eq!(ElfParser::parse(&raw), Err(FormatError::Truncated));
    let far = header64(0x3e, 0x1000, u64::MAX, 0xffff, 0xffff);
    assert_eq!(ElfParser::parse(&far), Err(FormatError::Truncated));
    let mut partial = header64(0x3e, 0x1000, 0x40, 0x38, 1);
    partial.extend(&entry64(PTYPE_LOAD, 4, 0, 0x1000, 0, 0x10)[..0x2f]);
    assert_eq!(ElfParser::parse(&partial), Err(FormatError::Truncated));
}

#[test]
fn parse_reports_an_overflowing_segment_end() {
    let mut raw = header64(0x3e, 0x1000, 0x40, 0x38, 2);
    raw.extend(entry64(PTYPE_LOAD, 4, 0, u64::MAX, 0, 0));
    raw.extend(entry64(PTYPE_LOAD, 4, 0, u64::MAX - 1, 0, 2));
    assert_eq!(ElfParser::parse(&raw), Err(FormatError::AddressOverflow));
    // Without the second entry the object is accepted, its end at the top.
    raw[0x38] = 1;
    let parsed = ElfParser::parse(&raw).unwrap();
    assert_eq!(parsed.image_base, u64::MAX);
    assert_eq!(parsed.image_end, u64::MAX);
}

#[test]
fn parse_reports_the_first_failing_entry() {
    // An overflowing entry before a truncated one, then the other way round.
    let mut raw = header64(0x3e, 0x1000, 0x40, 0x38, 2);
    raw.extend(entry64(PTYPE_LOAD, 4, 0, u64::MAX, 0, 1));
    assert_eq!(ElfParser::parse(&raw), Err(FormatError::AddressOverflow));
    let mut raw = header64(0x3e, 0x1000, 0x40, 0x38, 2);
    raw.extend(&entry64(PTYPE_LOAD, 4, 0, 0x1000, 0, 1)[..0x10]);
    assert_eq!(ElfParser::parse(&raw), Err(FormatError::Truncated));
}

#[test]
fn parse_twice_gives_the_same_object() {
    let raw = single_segment_object();
    let first = ElfParser::parse(&raw);
    let second = ElfParser::parse(&raw);
    assert_eq!(first, second);
    let copy = raw.clone();
    let third = ElfParser::parse(&copy).unwrap();
    let first = first.unwrap();
    assert_eq!(first.width, third.width);
    assert_eq!(first.image_base, third.image_base);
    assert_eq!(first.image_end, third.image_end);
    assert_eq!(first.entry_point, third.entry_point);
    assert_eq!(first.segment_table_offset, third.segment_table_offset);
    assert_eq!(first.segment_count, third.segment_count);
    assert_eq!(first.segment_entry_size, third.segment_entry_size);

    let broken = &raw[..0x50];
    assert_eq!(ElfParser::parse(broken), ElfParser::parse(broken));
    assert_eq!(ElfParser::parse(broken), Err(FormatError::Truncated));
}
