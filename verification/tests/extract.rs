use dwarf_ranges::entry::{AttrValue, Entry, TAG_SUBPROGRAM};
use dwarf_ranges::extract::{
    can_take_advances, extract, function_ranges, keep_begun, line_ranges, unit_ranges, Extracted,
};
use dwarf_ranges::failure::FailureKind;
use dwarf_ranges::object_file::Sections;
use dwarf_ranges::range::Range;
use dwarf_ranges::unit::Unit;

fn range(begin: u64, end: u64) -> Range {
    Range { begin, end }
}

fn entry(tag: u16) -> Entry {
    Entry { tag, low_pc: None, high_pc: None, ranges: None, stmt_list: None }
}

fn unit(root: Entry, rest: Vec<Entry>) -> Unit {
    Unit { version: 4, address_size: 8, producer: None, root, rest }
}

fn sections(debug_line: Vec<u8>, debug_ranges: Vec<u8>, little_endian: bool) -> Sections {
    Sections {
        debug_abbrev: Vec::new(),
        debug_info: Vec::new(),
        debug_line,
        debug_ranges,
        debug_str: Vec::new(),
        little_endian,
    }
}

fn no_sections() -> Sections {
    sections(Vec::new(), Vec::new(), true)
}

fn word(little_endian: bool, value: u64) -> Vec<u8> {
    if little_endian {
        value.to_le_bytes().to_vec()
    } else {
        value.to_be_bytes().to_vec()
    }
}

/// A ranges section that holds the pairs given, one after the other.
fn ranges_section(little_endian: bool, pairs: &[(u64, u64)]) -> Vec<u8> {
    let mut bytes = Vec::new();
    for &(begin, end) in pairs {
        bytes.extend(word(little_endian, begin));
        bytes.extend(word(little_endian, end));
    }
    bytes
}

/// A line section with one program, which runs one sequence for each pair
/// of a first address and a length.
fn line_section(sequences: &[(u64, u8)]) -> Vec<u8> {
    let mut program = Vec::new();
    for &(start, length) in sequences {
        // DW_LNE_set_address
        program.extend([0x00, 0x09, 0x02]);
        program.extend(start.to_le_bytes());
        // DW_LNS_copy
        program.push(0x01);
        // DW_LNS_advance_pc
        program.extend([0x02, length]);
        // DW_LNE_end_sequence
        program.extend([0x00, 0x01, 0x01]);
    }
    line_section_of(&program)
}

/// A line section with one program, made of the instructions given.
fn line_section_of(program: &[u8]) -> Vec<u8> {
    let mut after_length = vec![
        1,    // minimum_instruction_length
        1,    // maximum_operations_per_instruction
        1,    // default_is_stmt
        0xfb, // line_base
        14,   // line_range
        13,   // opcode_base
        0, 1, 1, 1, 1, 0, 0, 0, 1, 0, 0, 1, // standard_opcode_lengths
        0,    // no include directories
    ];
    after_length.extend(b"a.c\0");
    after_length.extend([0, 0, 0]);
    after_length.push(0);
    let mut unit = Vec::new();
    unit.extend(4u16.to_le_bytes());
    unit.extend((after_length.len() as u32).to_le_bytes());
    unit.extend(after_length);
    unit.extend(program);
    let mut section = Vec::new();
    section.extend((unit.len() as u32).to_le_bytes());
    section.extend(unit);
    section
}

fn contents(found: &Extracted) -> Vec<(u64, u64)> {
    found.ranges.ranges().iter().map(|r| (r.begin, r.end)).collect()
}

#[test]
fn base_address_is_the_low_address() {
    let mut e = entry(0x11);
    assert_eq!(e.base_address(), 0);
    e.low_pc = Some(AttrValue::Addr(0x4000));
    assert_eq!(e.base_address(), 0x4000);
    e.low_pc = Some(AttrValue::Udata(0x4000));
    assert_eq!(e.base_address(), 0);
    e.low_pc = Some(AttrValue::Other);
    assert_eq!(e.base_address(), 0);
}

#[test]
fn pc_range_takes_an_address_or_a_size() {
    let mut e = entry(0x11);
    assert_eq!(e.pc_range(), None);
    e.low_pc = Some(AttrValue::Addr(0x100));
    assert_eq!(e.pc_range(), None);
    e.high_pc = Some(AttrValue::Addr(0x180));
    assert_eq!(e.pc_range(), Some(range(0x100, 0x180)));
    e.high_pc = Some(AttrValue::Udata(0x20));
    assert_eq!(e.pc_range(), Some(range(0x100, 0x120)));
    e.high_pc = Some(AttrValue::Other);
    assert_eq!(e.pc_range(), None);
    e.high_pc = Some(AttrValue::Addr(0x180));
    e.low_pc = Some(AttrValue::Udata(0x100));
    assert_eq!(e.pc_range(), None);
}

#[test]
fn pc_range_wraps_around() {
    let mut e = entry(0x11);
    e.low_pc = Some(AttrValue::Addr(0x100));
    e.high_pc = Some(AttrValue::Udata(u64::MAX));
    assert_eq!(e.pc_range(), Some(range(0x100, 0xff)));
    e.low_pc = Some(AttrValue::Addr(u64::MAX));
    e.high_pc = Some(AttrValue::Udata(1));
    assert_eq!(e.pc_range(), Some(range(u64::MAX, 0)));
}

#[test]
fn is_subprogram_goes_by_the_tag() {
    assert!(entry(TAG_SUBPROGRAM).is_subprogram());
    assert!(entry(0x2e).is_subprogram());
    assert!(!entry(0x11).is_subprogram());
    assert!(!entry(0x1d).is_subprogram());
}

#[test]
fn keep_begun_drops_what_begins_at_zero() {
    let kept = keep_begun(&vec![range(0, 5), range(1, 5), range(0, 0), range(7, 3)]);
    assert_eq!(kept, vec![range(1, 5), range(7, 3)]);
}

#[test]
fn can_take_advances_but_the_least() {
    assert!(can_take_advances(&Vec::new()));
    assert!(can_take_advances(&vec![None, Some(0), Some(-1), Some(i64::MAX), Some(i64::MIN + 1)]));
    assert!(!can_take_advances(&vec![None, Some(3), Some(i64::MIN), None]));
    assert!(!can_take_advances(&vec![Some(i64::MIN)]));
}

#[test]
fn extract_pushes_sorts_and_reports() {
    let found = extract(&vec![
        range(0x30, 0x40),
        range(0x50, 0x48),
        range(0x10, 0x20),
        range(0x60, 0x60),
        range(0x18, 0x28),
        range(9, 3),
    ]);
    assert_eq!(contents(&found), vec![(0x10, 0x40)]);
    assert_eq!(found.invalid, vec![range(0x50, 0x48), range(9, 3)]);
    assert!(found.overlaps.is_empty());
}

#[test]
fn extract_of_nothing_is_empty() {
    let found = extract(&Vec::new());
    assert_eq!(contents(&found), vec![]);
    assert!(found.invalid.is_empty());
    assert!(found.overlaps.is_empty());
}

#[test]
fn unit_ranges_from_low_and_high_address() {
    let mut root = entry(0x11);
    root.low_pc = Some(AttrValue::Addr(0x1000));
    root.high_pc = Some(AttrValue::Udata(0x100));
    let found = unit_ranges(&unit(root, Vec::new()), &no_sections()).unwrap();
    assert_eq!(contents(&found), vec![(0x1000, 0x1100)]);
    root.high_pc = Some(AttrValue::Addr(0x1200));
    let found = unit_ranges(&unit(root, Vec::new()), &no_sections()).unwrap();
    assert_eq!(contents(&found), vec![(0x1000, 0x1200)]);
}

#[test]
fn unit_ranges_without_addresses_is_empty() {
    let mut root = entry(0x11);
    let found = unit_ranges(&unit(root, Vec::new()), &no_sections()).unwrap();
    assert_eq!(contents(&found), vec![]);
    root.low_pc = Some(AttrValue::Addr(0x1000));
    let found = unit_ranges(&unit(root, Vec::new()), &no_sections()).unwrap();
    assert_eq!(contents(&found), vec![]);
    root.ranges = Some(AttrValue::Other);
    let found = unit_ranges(&unit(root, Vec::new()), &no_sections()).unwrap();
    assert_eq!(contents(&found), vec![]);
    root.low_pc = Some(AttrValue::Other);
    root.high_pc = Some(AttrValue::Addr(0x2000));
    let found = unit_ranges(&unit(root, Vec::new()), &no_sections()).unwrap();
    assert_eq!(contents(&found), vec![]);
}

#[test]
fn unit_ranges_falls_back_on_low_and_high_address() {
    // A ranges attribute that refers to no range list counts for nothing.
    for ranges in [AttrValue::Other, AttrValue::Udata(0), AttrValue::Addr(8), AttrValue::LineRef(0)]
    {
        let mut root = entry(0x11);
        root.low_pc = Some(AttrValue::Addr(0x1000));
        root.high_pc = Some(AttrValue::Addr(0x2000));
        root.ranges = Some(ranges);
        let found = unit_ranges(&unit(root, Vec::new()), &no_sections()).unwrap();
        assert_eq!(contents(&found), vec![(0x1000, 0x2000)]);
        root.high_pc = Some(AttrValue::Udata(0x80));
        let found = unit_ranges(&unit(root, Vec::new()), &no_sections()).unwrap();
        assert_eq!(contents(&found), vec![(0x1000, 0x1080)]);
    }
}

#[test]
fn unit_ranges_prefers_the_range_list() {
    let debug_ranges = ranges_section(true, &[(0x10, 0x20), (0, 0)]);
    let mut root = entry(0x11);
    root.low_pc = Some(AttrValue::Addr(0x1000));
    root.high_pc = Some(AttrValue::Addr(0x2000));
    root.ranges = Some(AttrValue::RangesRef(0));
    let found =
        unit_ranges(&unit(root, Vec::new()), &sections(Vec::new(), debug_ranges, true)).unwrap();
    assert_eq!(contents(&found), vec![(0x1010, 0x1020)]);
}

#[test]
fn unit_ranges_reports_an_invalid_range() {
    let mut root = entry(0x11);
    root.low_pc = Some(AttrValue::Addr(0x1000));
    root.high_pc = Some(AttrValue::Addr(0x800));
    let found = unit_ranges(&unit(root, Vec::new()), &no_sections()).unwrap();
    assert_eq!(contents(&found), vec![]);
    assert_eq!(found.invalid, vec![range(0x1000, 0x800)]);
}

#[test]
fn unit_ranges_from_a_range_list() {
    for little_endian in [true, false] {
        let debug_ranges = ranges_section(
            little_endian,
            &[(1, 2), (0, 0), (0x300, 0x400), (0x100, 0x200), (0x180, 0x280), (0, 0)],
        );
        let mut root = entry(0x11);
        root.low_pc = Some(AttrValue::Addr(0x10000));
        root.ranges = Some(AttrValue::RangesRef(32));
        let found =
            unit_ranges(&unit(root, Vec::new()), &sections(Vec::new(), debug_ranges, little_endian))
                .unwrap();
        assert_eq!(contents(&found), vec![(0x10100, 0x10280), (0x10300, 0x10400)]);
        assert!(found.invalid.is_empty());
    }
}

#[test]
fn unit_ranges_ends_a_range_list_with_the_section() {
    let debug_ranges = ranges_section(true, &[(0x300, 0x400)]);
    let mut root = entry(0x11);
    root.ranges = Some(AttrValue::RangesRef(0));
    let found =
        unit_ranges(&unit(root, Vec::new()), &sections(Vec::new(), debug_ranges, true)).unwrap();
    assert_eq!(contents(&found), vec![(0x300, 0x400)]);
}

#[test]
fn unit_ranges_counts_from_zero_without_a_low_address() {
    let debug_ranges = ranges_section(true, &[(0x300, 0x400), (0, 0)]);
    let mut root = entry(0x11);
    root.ranges = Some(AttrValue::RangesRef(0));
    let found =
        unit_ranges(&unit(root, Vec::new()), &sections(Vec::new(), debug_ranges, true)).unwrap();
    assert_eq!(contents(&found), vec![(0x300, 0x400)]);
}

#[test]
fn unit_ranges_follows_a_new_base_address() {
    let debug_ranges =
        ranges_section(true, &[(0x10, 0x20), (u64::MAX, 0x5000), (0x10, 0x20), (0, 0)]);
    let mut root = entry(0x11);
    root.low_pc = Some(AttrValue::Addr(0x1000));
    root.ranges = Some(AttrValue::RangesRef(0));
    let found =
        unit_ranges(&unit(root, Vec::new()), &sections(Vec::new(), debug_ranges, true)).unwrap();
    assert_eq!(contents(&found), vec![(0x1010, 0x1020), (0x5010, 0x5020)]);
}

#[test]
fn unit_ranges_reads_four_byte_addresses() {
    let mut debug_ranges = Vec::new();
    for value in [0x10u32, 0x20, 0x40, 0x50, 0, 0] {
        debug_ranges.extend(value.to_le_bytes());
    }
    let mut root = entry(0x11);
    root.low_pc = Some(AttrValue::Addr(0x1000));
    root.ranges = Some(AttrValue::RangesRef(0));
    let mut unit = unit(root, Vec::new());
    unit.address_size = 4;
    let found = unit_ranges(&unit, &sections(Vec::new(), debug_ranges, true)).unwrap();
    assert_eq!(contents(&found), vec![(0x1010, 0x1020), (0x1040, 0x1050)]);
}

#[test]
fn unit_ranges_fails_on_a_broken_range_list() {
    // The second pair of the list is cut off in the middle.
    let mut debug_ranges = ranges_section(true, &[(0x300, 0x400), (0x500, 0x600)]);
    debug_ranges.truncate(24);
    let mut root = entry(0x11);
    root.ranges = Some(AttrValue::RangesRef(0));
    let failure = unit_ranges(
        &unit(root, Vec::new()),
        &sections(Vec::new(), debug_ranges.clone(), true),
    )
    .unwrap_err();
    assert_eq!(failure.kind(), FailureKind::Dwarf);
    root.ranges = Some(AttrValue::RangesRef(1000));
    let failure =
        unit_ranges(&unit(root, Vec::new()), &sections(Vec::new(), debug_ranges, true))
            .unwrap_err();
    assert_eq!(failure.kind(), FailureKind::Dwarf);
}

#[test]
fn extractors_refuse_to_parse_with_an_odd_address_size() {
    let debug_ranges = ranges_section(true, &[(0x10, 0x20), (0, 0)]);
    let debug_line = line_section(&[(0x2000, 0x30)]);
    let sections = sections(debug_line, debug_ranges, true);
    let mut root = entry(0x11);
    root.low_pc = Some(AttrValue::Addr(0x1000));
    root.ranges = Some(AttrValue::RangesRef(0));
    root.stmt_list = Some(AttrValue::LineRef(0));
    let mut listed = entry(TAG_SUBPROGRAM);
    listed.ranges = Some(AttrValue::RangesRef(0));
    let mut plain = entry(TAG_SUBPROGRAM);
    plain.low_pc = Some(AttrValue::Addr(0x3000));
    plain.high_pc = Some(AttrValue::Udata(0x10));
    for size in [0u8, 3, 9, 16, 255] {
        let mut unit = unit(root, vec![plain, listed, plain]);
        unit.address_size = size;
        let kind = FailureKind::AddressSize(size);
        assert_eq!(unit_ranges(&unit, &sections).unwrap_err().kind(), kind);
        assert_eq!(line_ranges(&unit, &sections).unwrap_err().kind(), kind);
        assert_eq!(function_ranges(&unit, &sections).unwrap_err().kind(), kind);
    }
}

#[test]
fn extractors_need_no_address_size_where_nothing_is_parsed() {
    let mut root = entry(0x11);
    root.low_pc = Some(AttrValue::Addr(0x1000));
    root.high_pc = Some(AttrValue::Addr(0x2000));
    let mut plain = entry(TAG_SUBPROGRAM);
    plain.low_pc = Some(AttrValue::Addr(0x3000));
    plain.high_pc = Some(AttrValue::Udata(0x10));
    let mut odd = entry(TAG_SUBPROGRAM);
    odd.ranges = Some(AttrValue::Other);
    let mut variable = entry(0x34);
    variable.ranges = Some(AttrValue::RangesRef(0));
    for size in [0u8, 3, 9, 16, 255] {
        let mut unit = unit(root, vec![plain, odd, variable]);
        unit.address_size = size;
        let found = unit_ranges(&unit, &no_sections()).unwrap();
        assert_eq!(contents(&found), vec![(0x1000, 0x2000)]);
        let found = line_ranges(&unit, &no_sections()).unwrap();
        assert_eq!(contents(&found), vec![]);
        let found = function_ranges(&unit, &no_sections()).unwrap();
        assert_eq!(contents(&found), vec![(0x3000, 0x3010)]);
    }
}

#[test]
fn line_ranges_from_a_line_program() {
    let debug_line = line_section(&[(0x2000, 0x30), (0, 0x10), (0x1000, 0x20), (0x1020, 0x08)]);
    let mut root = entry(0x11);
    root.stmt_list = Some(AttrValue::LineRef(0));
    let found =
        line_ranges(&unit(root, Vec::new()), &sections(debug_line, Vec::new(), true)).unwrap();
    assert_eq!(contents(&found), vec![(0x1000, 0x1028), (0x2000, 0x2030)]);
    assert!(found.invalid.is_empty());
    assert!(found.overlaps.is_empty());
}

#[test]
fn line_ranges_without_a_line_program_is_empty() {
    let debug_line = line_section(&[(0x2000, 0x30)]);
    let mut root = entry(0x11);
    let found =
        line_ranges(&unit(root, Vec::new()), &sections(debug_line.clone(), Vec::new(), true))
            .unwrap();
    assert_eq!(contents(&found), vec![]);
    root.stmt_list = Some(AttrValue::Other);
    let found =
        line_ranges(&unit(root, Vec::new()), &sections(debug_line.clone(), Vec::new(), true))
            .unwrap();
    assert_eq!(contents(&found), vec![]);
    root.stmt_list = Some(AttrValue::RangesRef(0));
    let found =
        line_ranges(&unit(root, Vec::new()), &sections(debug_line, Vec::new(), true)).unwrap();
    assert_eq!(contents(&found), vec![]);
}

#[test]
fn line_ranges_fails_on_a_broken_line_program() {
    let mut debug_line = line_section(&[(0x2000, 0x30)]);
    debug_line.truncate(20);
    let mut root = entry(0x11);
    root.stmt_list = Some(AttrValue::LineRef(0));
    let failure = line_ranges(&unit(root, Vec::new()), &sections(debug_line, Vec::new(), true))
        .unwrap_err();
    assert_eq!(failure.kind(), FailureKind::Dwarf);
}

#[test]
fn line_ranges_takes_a_line_advance() {
    let mut program = vec![0x00, 0x09, 0x02];
    program.extend(0x1000u64.to_le_bytes());
    // DW_LNS_advance_line by -3 and by 70, DW_LNS_copy, a special opcode
    // that adds 2 to the address, DW_LNS_advance_pc, DW_LNE_end_sequence.
    program.extend([0x03, 0x7d, 0x03, 0xc6, 0x00, 0x01, 13 + 2 * 14 + 5, 0x02, 0x10]);
    program.extend([0x00, 0x01, 0x01]);
    let mut root = entry(0x11);
    root.stmt_list = Some(AttrValue::LineRef(0));
    let found = line_ranges(
        &unit(root, Vec::new()),
        &sections(line_section_of(&program), Vec::new(), true),
    )
    .unwrap();
    assert_eq!(contents(&found), vec![(0x1000, 0x1012)]);
}

#[test]
fn line_ranges_refuses_a_line_advance_without_opposite() {
    let mut program = vec![0x00, 0x09, 0x02];
    program.extend(0x1000u64.to_le_bytes());
    // DW_LNS_advance_line by the least number of sixty-four bits.
    program.extend([0x03, 0x80, 0x80, 0x80, 0x80, 0x80, 0x80, 0x80, 0x80, 0x80, 0x7f]);
    program.extend([0x01, 0x02, 0x10, 0x00, 0x01, 0x01]);
    let mut root = entry(0x11);
    root.stmt_list = Some(AttrValue::LineRef(0));
    let failure = line_ranges(
        &unit(root, Vec::new()),
        &sections(line_section_of(&program), Vec::new(), true),
    )
    .unwrap_err();
    assert_eq!(failure.kind(), FailureKind::LineAdvance);

    // One more than the least number can be taken.
    let mut program = vec![0x00, 0x09, 0x02];
    program.extend(0x1000u64.to_le_bytes());
    program.extend([0x03, 0x81, 0x80, 0x80, 0x80, 0x80, 0x80, 0x80, 0x80, 0x80, 0x7f]);
    program.extend([0x01, 0x02, 0x10, 0x00, 0x01, 0x01]);
    let found = line_ranges(
        &unit(root, Vec::new()),
        &sections(line_section_of(&program), Vec::new(), true),
    )
    .unwrap();
    assert_eq!(contents(&found), vec![(0x1000, 0x1010)]);
}

#[test]
fn function_ranges_of_the_functions_below_the_root() {
    let debug_ranges = ranges_section(true, &[(0x50, 0x60), (0x70, 0x80), (0, 0)]);
    let mut root = entry(0x11);
    root.low_pc = Some(AttrValue::Addr(0x1000));
    root.high_pc = Some(AttrValue::Udata(0x1000));
    let mut by_size = entry(TAG_SUBPROGRAM);
    by_size.low_pc = Some(AttrValue::Addr(0x1100));
    by_size.high_pc = Some(AttrValue::Udata(0x40));
    let mut by_list = entry(TAG_SUBPROGRAM);
    by_list.ranges = Some(AttrValue::RangesRef(0));
    let mut variable = entry(0x34);
    variable.low_pc = Some(AttrValue::Addr(0x5000));
    variable.high_pc = Some(AttrValue::Addr(0x6000));
    let mut at_zero = entry(TAG_SUBPROGRAM);
    at_zero.low_pc = Some(AttrValue::Addr(0));
    at_zero.high_pc = Some(AttrValue::Udata(0x40));
    let mut by_address = entry(TAG_SUBPROGRAM);
    by_address.low_pc = Some(AttrValue::Addr(0x1000));
    by_address.high_pc = Some(AttrValue::Addr(0x1048));
    let mut backwards = entry(TAG_SUBPROGRAM);
    backwards.low_pc = Some(AttrValue::Addr(0x3000));
    backwards.high_pc = Some(AttrValue::Addr(0x2000));
    let mut odd = entry(TAG_SUBPROGRAM);
    odd.low_pc = Some(AttrValue::Addr(0x7000));
    odd.high_pc = Some(AttrValue::Addr(0x8000));
    odd.ranges = Some(AttrValue::Other);
    let declared = entry(TAG_SUBPROGRAM);
    let unit = unit(
        root,
        vec![by_size, by_list, variable, at_zero, by_address, backwards, odd, declared],
    );
    let found = function_ranges(&unit, &sections(Vec::new(), debug_ranges, true)).unwrap();
    assert_eq!(contents(&found), vec![(0x1000, 0x1060), (0x1070, 0x1080), (0x1100, 0x1140)]);
    assert_eq!(found.invalid, vec![range(0x3000, 0x2000)]);
    assert!(found.overlaps.is_empty());
}

#[test]
fn function_ranges_leaves_the_root_out() {
    let mut root = entry(TAG_SUBPROGRAM);
    root.low_pc = Some(AttrValue::Addr(0x1000));
    root.high_pc = Some(AttrValue::Udata(0x1000));
    let found = function_ranges(&unit(root, Vec::new()), &no_sections()).unwrap();
    assert_eq!(contents(&found), vec![]);
}

#[test]
fn function_ranges_fails_on_a_broken_range_list() {
    let root = entry(0x11);
    let mut good = entry(TAG_SUBPROGRAM);
    good.low_pc = Some(AttrValue::Addr(0x1100));
    good.high_pc = Some(AttrValue::Udata(0x40));
    let mut broken = entry(TAG_SUBPROGRAM);
    broken.ranges = Some(AttrValue::RangesRef(64));
    let failure =
        function_ranges(&unit(root, vec![good, broken, good]), &no_sections()).unwrap_err();
    assert_eq!(failure.kind(), FailureKind::Dwarf);
}
