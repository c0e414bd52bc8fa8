//! What is read out of the debug sections, and the parser that reads it.

use crate::entry::{AttrValue, Entry};
use crate::range::Range;
use gimli::{
    AttributeValue, DebugAbbrev, DebugAddr, DebugAddrBase, DebugInfo, DebugInfoOffset, DebugLine,
    DebugLineOffset, DebugRanges, DebugRngLists, DebugStr, Encoding, EndianSlice, Format,
    LineInstruction, RangeLists, RangeListsOffset, RunTimeEndian, DW_AT_high_pc, DW_AT_low_pc,
    DW_AT_producer, DW_AT_ranges, DW_AT_stmt_list,
};
use vstd::prelude::*;

verus! {

/// Where a unit stands in the info section, and what its header says of
/// the unit's encoding.
#[derive(Clone, Copy, Debug, PartialEq, Eq)]
pub struct UnitHead {
    pub offset: usize,
    pub version: u16,
    pub address_size: u8,
}

/// The heads of the units of the info section, in the order of the section
/// and up to the first that cannot be parsed, and whether a unit could not
/// be parsed.
pub uninterp spec fn unit_heads(debug_info: Seq<u8>, little_endian: bool) -> (Seq<UnitHead>, bool);

/// The entries of the unit that stands at `offset` of the info section, in
/// depth-first order; `None` where the unit cannot be parsed.
pub uninterp spec fn unit_entries(
    debug_info: Seq<u8>,
    debug_abbrev: Seq<u8>,
    little_endian: bool,
    offset: usize,
) -> Option<Seq<Entry>>;

/// The producer that the first entry of the unit at `offset` names, if it
/// names one as a string that can be read; `None` where the unit cannot be
/// parsed.
pub uninterp spec fn unit_producer(
    debug_info: Seq<u8>,
    debug_abbrev: Seq<u8>,
    debug_str: Seq<u8>,
    little_endian: bool,
    offset: usize,
) -> Option<Option<Seq<char>>>;

/// The ranges of the range list that starts at `offset` of the ranges
/// section, for a unit of the given version and address size and with
/// offsets counted from `base`; `None` where the list cannot be parsed.
pub uninterp spec fn range_list(
    debug_ranges: Seq<u8>,
    little_endian: bool,
    version: u16,
    address_size: u8,
    offset: usize,
    base: u64,
) -> Option<Seq<Range>>;

/// The address ranges of the sequences of the line program that starts at
/// `offset` of the line section, each from its first address to the address
/// that ends it, in the order of the program; `None` where the program
/// cannot be parsed.
pub uninterp spec fn line_sequences(
    debug_line: Seq<u8>,
    little_endian: bool,
    address_size: u8,
    offset: usize,
) -> Option<Seq<Range>>;

/// For each instruction of the line program that starts at `offset` of the
/// line section, up to the first that cannot be parsed: the number of lines
/// by which it advances the line, if it is an instruction to advance the
/// line by a number given with it. Empty where the head of the program
/// cannot be parsed.
pub uninterp spec fn line_advances(
    debug_line: Seq<u8>,
    little_endian: bool,
    address_size: u8,
    offset: usize,
) -> Seq<Option<i64>>;

/// Whether the line program at `offset` can be run: it never advances the
/// line by the least number there is, which has no opposite.
pub open spec fn can_run_line_program(
    debug_line: Seq<u8>,
    little_endian: bool,
    address_size: u8,
    offset: usize,
) -> bool {
    forall|i: int|
        0 <= i < line_advances(debug_line, little_endian, address_size, offset).len()
            ==> #[trigger] line_advances(debug_line, little_endian, address_size, offset)[i]
            != Some(i64::MIN)
}

/// Whether addresses of `size` bytes can be read.
pub open spec fn is_address_size(size: u8) -> bool {
    size == 1 || size == 2 || size == 4 || size == 8
}

/// Whether addresses of `size` bytes can be read.
pub fn can_read_addresses(size: u8) -> (yes: bool)
    ensures
        yes == is_address_size(size),
{
    size == 1 || size == 2 || size == 4 || size == 8
}

/// The tag, the low and the high address of an entry.
pub open spec fn code_of(entry: Entry) -> (u16, Option<AttrValue>, Option<AttrValue>) {
    (entry.tag, entry.low_pc, entry.high_pc)
}

/// The references of an entry to a range list and to a line program.
pub open spec fn references_of(entry: Entry) -> (Option<AttrValue>, Option<AttrValue>) {
    (entry.ranges, entry.stmt_list)
}

/// Walks the unit headers of the info section with `DebugInfo::units` of
/// gimli and its iterator's `next`, and reads of each header its offset,
/// version and address size.
#[verifier::external_body]
pub(crate) fn read_unit_heads(debug_info: &[u8], little_endian: bool) -> (found: (
    Vec<UnitHead>,
    Option<gimli::Error>,
))
    ensures
        unit_heads(debug_info@, little_endian) == (found.0@, found.1.is_some()),
{
    let endian = if little_endian { RunTimeEndian::Little } else { RunTimeEndian::Big };
    let mut units = DebugInfo::new(debug_info, endian).units();
    let mut heads = Vec::new();
    loop {
        match units.next() {
            Ok(Some(unit)) => heads.push(UnitHead {
                offset: unit.offset().0,
                version: unit.version(),
                address_size: unit.address_size(),
            }),
            Ok(None) => return (heads, None),
            Err(error) => return (heads, Some(error)),
        }
    }
}

/// Walks the entries of the unit at `offset` with `EntriesCursor::next_dfs`
/// of gimli, after `DebugInfo::header_from_offset`,
/// `UnitHeader::abbreviations` and `UnitHeader::entries`, and reads of each
/// entry its tag and, with `DebuggingInformationEntry::attr_value`, its low
/// and its high address.
#[verifier::external_body]
pub(crate) fn read_code_attributes(
    debug_info: &[u8],
    debug_abbrev: &[u8],
    little_endian: bool,
    offset: usize,
) -> (found: Result<Vec<(u16, Option<AttrValue>, Option<AttrValue>)>, gimli::Error>)
    ensures
        match found {
            Ok(values) => unit_entries(debug_info@, debug_abbrev@, little_endian, offset)
                matches Some(entries) && values@ == entries.map_values(|e: Entry| code_of(e)),
            Err(_) => unit_entries(debug_info@, debug_abbrev@, little_endian, offset) is None,
        },
{
    let endian = if little_endian { RunTimeEndian::Little } else { RunTimeEndian::Big };
    let unit = DebugInfo::new(debug_info, endian).header_from_offset(DebugInfoOffset(offset))?;
    let abbrevs = unit.abbreviations(&DebugAbbrev::new(debug_abbrev, endian))?;
    let (mut cursor, mut values) = (unit.entries(&abbrevs), Vec::new());
    let plain = |value| match value {
        AttributeValue::Addr(address) => AttrValue::Addr(address),
        AttributeValue::Udata(size) => AttrValue::Udata(size),
        _ => AttrValue::Other,
    };
    while let Some(entry) = cursor.next_dfs()? {
        let low_pc = entry.attr_value(DW_AT_low_pc).map(plain);
        let high_pc = entry.attr_value(DW_AT_high_pc).map(plain);
        values.push((entry.tag().0, low_pc, high_pc));
    }
    Ok(values)
}

/// Walks the entries of the unit at `offset` as [`read_code_attributes`]
/// does, and reads of each entry, with
/// `DebuggingInformationEntry::attr_value`, its reference to a range list
/// and its reference to a line program.
#[verifier::external_body]
pub(crate) fn read_reference_attributes(
    debug_info: &[u8],
    debug_abbrev: &[u8],
    little_endian: bool,
    offset: usize,
) -> (found: Result<Vec<(Option<AttrValue>, Option<AttrValue>)>, gimli::Error>)
    ensures
        match found {
            Ok(values) => unit_entries(debug_info@, debug_abbrev@, little_endian, offset)
                matches Some(entries) && values@ == entries.map_values(
                |e: Entry| references_of(e),
            ),
            Err(_) => unit_entries(debug_info@, debug_abbrev@, little_endian, offset) is None,
        },
{
    let endian = if little_endian { RunTimeEndian::Little } else { RunTimeEndian::Big };
    let unit = DebugInfo::new(debug_info, endian).header_from_offset(DebugInfoOffset(offset))?;
    let abbrevs = unit.abbreviations(&DebugAbbrev::new(debug_abbrev, endian))?;
    let (mut cursor, mut values) = (unit.entries(&abbrevs), Vec::new());
    let plain = |value| match value {
        AttributeValue::RangeListsRef(at) => AttrValue::RangesRef(at.0),
        AttributeValue::DebugLineRef(at) => AttrValue::LineRef(at.0),
        _ => AttrValue::Other,
    };
    while let Some(entry) = cursor.next_dfs()? {
        let ranges = entry.attr_value(DW_AT_ranges).map(plain);
        let stmt_list = entry.attr_value(DW_AT_stmt_list).map(plain);
        values.push((ranges, stmt_list));
    }
    Ok(values)
}

/// Reads the producer of the unit at `offset`: the attribute of that name
/// of the first entry that `EntriesCursor::next_dfs` of gimli gives, turned
/// into text by `Attribute::string_value` and `EndianSlice::to_string_lossy`.
#[verifier::external_body]
pub(crate) fn read_producer(
    debug_info: &[u8],
    debug_abbrev: &[u8],
    debug_str: &[u8],
    little_endian: bool,
    offset: usize,
) -> (found: Result<Option<String>, gimli::Error>)
    ensures
        match found {
            Ok(Some(text)) => unit_producer(
                debug_info@,
                debug_abbrev@,
                debug_str@,
                little_endian,
                offset,
            ) == Some(Some(text@)),
            Ok(None) => unit_producer(
                debug_info@,
                debug_abbrev@,
                debug_str@,
                little_endian,
                offset,
            ) == Some(None::<Seq<char>>),
            Err(_) => unit_producer(
                debug_info@,
                debug_abbrev@,
                debug_str@,
                little_endian,
                offset,
            ) is None,
        },
{
    let endian = if little_endian { RunTimeEndian::Little } else { RunTimeEndian::Big };
    let unit = DebugInfo::new(debug_info, endian).header_from_offset(DebugInfoOffset(offset))?;
    let abbrevs = unit.abbreviations(&DebugAbbrev::new(debug_abbrev, endian))?;
    let mut cursor = unit.entries(&abbrevs);
    let strings = DebugStr::new(debug_str, endian);
    let named = cursor.next_dfs()?.and_then(|entry| entry.attr(DW_AT_producer));
    match named.and_then(|producer| producer.string_value(&strings)) {
        Some(text) => Ok(Some(text.to_string_lossy().into_owned())),
        None => Ok(None),
    }
}

/// Walks the range list at `offset` with `RangeLists::ranges` of gimli and
/// its iterator's `next`. Units up to version 4 have their lists in the
/// ranges section that is handed in; later ones in a section that is not
/// read here, and is handed to gimli as empty. gimli shifts by the address
/// size, which must be one it knows.
#[verifier::external_body]
pub(crate) fn read_range_list(
    debug_ranges: &[u8],
    little_endian: bool,
    version: u16,
    address_size: u8,
    offset: usize,
    base: u64,
) -> (list: Result<Vec<Range>, gimli::Error>)
    requires
        is_address_size(address_size),
    ensures
        match list {
            Ok(ranges) => range_list(
                debug_ranges@,
                little_endian,
                version,
                address_size,
                offset,
                base,
            ) == Some(ranges@),
            Err(_) => range_list(
                debug_ranges@,
                little_endian,
                version,
                address_size,
                offset,
                base,
            ) is None,
        },
{
    let endian = if little_endian { RunTimeEndian::Little } else { RunTimeEndian::Big };
    let encoding = Encoding { address_size, format: Format::Dwarf32, version };
    let section = DebugRanges::new(debug_ranges, endian);
    let lists = RangeLists::new(section, DebugRngLists::new(&[], endian));
    let no_addresses = DebugAddr::from(EndianSlice::new(&[], endian));
    let at = RangeListsOffset(offset);
    let mut found = lists.ranges(at, encoding, base, &no_addresses, DebugAddrBase(0))?;
    let mut ranges = Vec::new();
    while let Some(range) = found.next()? {
        ranges.push(Range { begin: range.begin, end: range.end });
    }
    Ok(ranges)
}

/// Parses the instructions of the line program at `offset`, without
/// running them, with `LineInstructions::next_instruction` of gimli after
/// `DebugLine::program`, and tells of each whether it is
/// `LineInstruction::AdvanceLine`, and by how much.
#[verifier::external_body]
pub(crate) fn read_line_advances(
    debug_line: &[u8],
    little_endian: bool,
    address_size: u8,
    offset: usize,
) -> (advances: Vec<Option<i64>>)
    ensures
        advances@ == line_advances(debug_line@, little_endian, address_size, offset),
{
    let endian = if little_endian { RunTimeEndian::Little } else { RunTimeEndian::Big };
    let mut advances = Vec::new();
    let section = DebugLine::new(debug_line, endian);
    if let Ok(program) = section.program(DebugLineOffset(offset), address_size, None, None) {
        let mut instructions = program.header().instructions();
        while let Ok(Some(instruction)) = instructions.next_instruction(program.header()) {
            advances.push(match instruction {
                LineInstruction::AdvanceLine(lines) => Some(lines),
                _ => None,
            });
        }
    }
    advances
}

/// Runs the line program at `offset` with `DebugLine::program` and
/// `IncompleteLineProgram::sequences` of gimli, and hands out the first and
/// the end address of each sequence. The directory and the name of the
/// unit, which gimli takes for the file names of the program, are left
/// out: no address depends on them. gimli negates the number of an
/// instruction that moves the line back, so the least number there is must
/// not occur; and it shifts by the address size, which must be one it
/// knows.
#[verifier::external_body]
pub(crate) fn read_line_sequences(
    debug_line: &[u8],
    little_endian: bool,
    address_size: u8,
    offset: usize,
) -> (sequences: Result<Vec<Range>, gimli::Error>)
    requires
        is_address_size(address_size),
        can_run_line_program(debug_line@, little_endian, address_size, offset),
    ensures
        match sequences {
            Ok(ranges) => line_sequences(debug_line@, little_endian, address_size, offset) == Some(
                ranges@,
            ),
            Err(_) => line_sequences(debug_line@, little_endian, address_size, offset) is None,
        },
{
    let endian = if little_endian { RunTimeEndian::Little } else { RunTimeEndian::Big };
    let section = DebugLine::new(debug_line, endian);
    let program = section.program(DebugLineOffset(offset), address_size, None, None)?;
    let (_, sequences) = program.sequences()?;
    Ok(sequences.iter().map(|s| Range { begin: s.start, end: s.end }).collect())
}

} // verus!
