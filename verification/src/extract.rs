//! The three views of the code of a compilation unit: the ranges that the
//! unit declares, those that its line program covers, and those of its
//! functions.

use crate::dwarf::{
    can_read_addresses, can_run_line_program, is_address_size, line_sequences, range_list,
    read_line_advances, read_line_sequences, read_range_list,
};
use crate::entry::{AttrValue, Entry};
use crate::failure::{Failure, FailureKind};
use crate::laws::{lemma_normalized_is_separated, lemma_separated_has_no_overlaps};
use crate::object_file::{Sections, SectionsView};
use crate::range::{adjacent_overlaps, is_normalized, normalize, push_spec, Pushed, Range};
use crate::range_list::RangeList;
use crate::unit::{Unit, UnitView};
use vstd::prelude::*;

verus! {

/// One view of the code of a unit.
#[derive(Debug)]
pub struct Extracted {
    /// The ranges, in normal form.
    pub ranges: RangeList,
    /// The ranges that were dropped because they end before they begin, in
    /// the order in which they were met.
    pub invalid: Vec<Range>,
    /// The neighbours among `ranges` that overlap.
    pub overlaps: Vec<(Range, Range)>,
}

/// [`Extracted`] as plain sequences.
pub struct ExtractedView {
    pub ranges: Seq<Range>,
    pub invalid: Seq<Range>,
    pub overlaps: Seq<(Range, Range)>,
}

impl View for Extracted {
    type V = ExtractedView;

    open spec fn view(&self) -> ExtractedView {
        ExtractedView {
            ranges: self.ranges@,
            invalid: self.invalid@,
            overlaps: self.overlaps@,
        }
    }
}

/// The list that is there after each range of `added` was pushed, in
/// order, starting from the empty list.
pub open spec fn pushed(added: Seq<Range>) -> Seq<Range>
    decreases added.len(),
{
    if added.len() == 0 {
        Seq::empty()
    } else {
        push_spec(pushed(added.drop_last()), added.last())
    }
}

/// The ranges of `s` that end before they begin, in order.
pub open spec fn invalid_among(s: Seq<Range>) -> Seq<Range>
    decreases s.len(),
{
    if s.len() == 0 {
        Seq::empty()
    } else if s.last().end < s.last().begin {
        invalid_among(s.drop_last()).push(s.last())
    } else {
        invalid_among(s.drop_last())
    }
}

/// The ranges of `s` that do not begin at address zero, in order.
pub open spec fn begun(s: Seq<Range>) -> Seq<Range>
    decreases s.len(),
{
    if s.len() == 0 {
        Seq::empty()
    } else if s.last().begin != 0 {
        begun(s.drop_last()).push(s.last())
    } else {
        begun(s.drop_last())
    }
}

/// The view that the candidate ranges `candidates` make: its ranges are
/// the candidates pushed onto an empty list and normalized, its invalid
/// ranges those candidates that end before they begin, its overlaps the
/// neighbours among its ranges that overlap.
pub open spec fn extracted(candidates: Seq<Range>) -> ExtractedView {
    ExtractedView {
        ranges: normalize(pushed(candidates)),
        invalid: invalid_among(candidates),
        overlaps: adjacent_overlaps(normalize(pushed(candidates))),
    }
}

/// Pushes the candidate ranges of a view onto an empty list, sorts it, and
/// looks for neighbours that overlap. Since sorting joins what overlaps,
/// there are none.
pub fn extract(candidates: &Vec<Range>) -> (found: Extracted)
    ensures
        found@ == extracted(candidates@),
        found.overlaps@.len() == 0,
        is_normalized(found.ranges@),
{
    let mut ranges = RangeList::new();
    let mut invalid: Vec<Range> = Vec::new();
    let mut i: usize = 0;
    while i < candidates.len()
        invariant
            i <= candidates@.len(),
            ranges@ == pushed(candidates@.take(i as int)),
            invalid@ == invalid_among(candidates@.take(i as int)),
        decreases candidates@.len() - i,
    {
        let range = candidates[i];
        assert(candidates@.take(i + 1).drop_last() =~= candidates@.take(i as int));
        match ranges.push(range) {
            Pushed::Invalid => { invalid.push(range); },
            _ => {},
        }
        i += 1;
    }
    assert(candidates@.take(i as int) =~= candidates@);
    ranges.sort();
    let overlaps = ranges.overlaps();
    proof {
        lemma_normalized_is_separated(ranges@);
        lemma_separated_has_no_overlaps(ranges@);
    }
    Extracted { ranges, invalid, overlaps }
}

/// The candidate that the low and the high address of an entry make, if
/// they make a range.
pub open spec fn pc_candidates(entry: Entry) -> Seq<Range> {
    match entry.pc_range_spec() {
        Some(range) => seq![range],
        None => Seq::empty(),
    }
}

/// The ranges of the range list at `at`, with offsets counted from the low
/// address of the unit's first entry; a failure where the unit's addresses
/// have a size that cannot be read, or the list cannot be parsed.
pub open spec fn listed(at: usize, unit: UnitView, sections: SectionsView) -> Result<
    Seq<Range>,
    FailureKind,
> {
    if !is_address_size(unit.address_size) {
        Err(FailureKind::AddressSize(unit.address_size))
    } else {
        match range_list(
            sections.debug_ranges,
            sections.little_endian,
            unit.version,
            unit.address_size,
            at,
            unit.root.base_address_spec(),
        ) {
            Some(ranges) => Ok(ranges),
            None => Err(FailureKind::Dwarf),
        }
    }
}

/// The candidate ranges of the unit's own view: the range list that the
/// first entry refers to, where it refers to one, and else the range
/// between its low and its high address.
pub open spec fn unit_candidates(unit: UnitView, sections: SectionsView) -> Result<
    Seq<Range>,
    FailureKind,
> {
    match unit.root.ranges {
        Some(AttrValue::RangesRef(at)) => listed(at, unit, sections),
        _ => Ok(pc_candidates(unit.root)),
    }
}

/// The candidate ranges of the line view: the sequences of the line
/// program that the first entry refers to, but for those that begin at
/// address zero. A failure where the unit's addresses have a size that
/// cannot be read, or the line program cannot be run or cannot be parsed.
pub open spec fn line_candidates(unit: UnitView, sections: SectionsView) -> Result<
    Seq<Range>,
    FailureKind,
> {
    match unit.root.stmt_list {
        Some(AttrValue::LineRef(at)) => if !is_address_size(unit.address_size) {
            Err(FailureKind::AddressSize(unit.address_size))
        } else if !can_run_line_program(
            sections.debug_line,
            sections.little_endian,
            unit.address_size,
            at,
        ) {
            Err(FailureKind::LineAdvance)
        } else {
            match line_sequences(
                sections.debug_line,
                sections.little_endian,
                unit.address_size,
                at,
            ) {
                Some(sequences) => Ok(begun(sequences)),
                None => Err(FailureKind::Dwarf),
            }
        },
        _ => Ok(Seq::empty()),
    }
}

/// The candidate ranges of one entry below the first: none unless the
/// entry is a function; for a function its range list, where it refers to
/// one, and the range between its low and its high address where it has no
/// such attribute and the low address is not zero.
pub open spec fn entry_candidates(entry: Entry, unit: UnitView, sections: SectionsView) -> Result<
    Seq<Range>,
    FailureKind,
> {
    if !entry.is_subprogram_spec() {
        Ok(Seq::empty())
    } else {
        match entry.ranges {
            None => Ok(begun(pc_candidates(entry))),
            Some(AttrValue::RangesRef(at)) => listed(at, unit, sections),
            Some(_) => Ok(Seq::empty()),
        }
    }
}

/// The candidate ranges of `entries`, one entry after the other; the first
/// failure where the candidates of an entry fail.
pub open spec fn entries_candidates(
    entries: Seq<Entry>,
    unit: UnitView,
    sections: SectionsView,
) -> Result<Seq<Range>, FailureKind>
    decreases entries.len(),
{
    if entries.len() == 0 {
        Ok(Seq::empty())
    } else {
        match entries_candidates(entries.drop_last(), unit, sections) {
            Err(kind) => Err(kind),
            Ok(before) => match entry_candidates(entries.last(), unit, sections) {
                Err(kind) => Err(kind),
                Ok(more) => Ok(before + more),
            },
        }
    }
}

/// The candidate ranges of the function view: those of every entry below
/// the first.
pub open spec fn function_candidates(unit: UnitView, sections: SectionsView) -> Result<
    Seq<Range>,
    FailureKind,
> {
    entries_candidates(unit.rest, unit, sections)
}

/// The view that the candidates `candidates` make: their failure where
/// they fail, and else what [`extracted`] says.
pub open spec fn view_of(candidates: Result<Seq<Range>, FailureKind>) -> Result<
    ExtractedView,
    FailureKind,
> {
    match candidates {
        Err(kind) => Err(kind),
        Ok(candidates) => Ok(extracted(candidates)),
    }
}

/// What an extractor owes for the candidates `candidates`: the failure or
/// the view that [`view_of`] says, a view without overlaps and with
/// normalized ranges.
pub open spec fn extracts(
    candidates: Result<Seq<Range>, FailureKind>,
    found: Result<Extracted, Failure>,
) -> bool {
    match view_of(candidates) {
        Err(kind) => found matches Err(failure) && failure.kind_spec() == kind,
        Ok(view) => found matches Ok(made) && made@ == view && view.overlaps.len() == 0
            && is_normalized(view.ranges),
    }
}

/// The ranges of `ranges` that do not begin at address zero.
pub fn keep_begun(ranges: &Vec<Range>) -> (kept: Vec<Range>)
    ensures
        kept@ == begun(ranges@),
{
    let mut kept: Vec<Range> = Vec::new();
    let mut i: usize = 0;
    while i < ranges.len()
        invariant
            i <= ranges@.len(),
            kept@ == begun(ranges@.take(i as int)),
        decreases ranges@.len() - i,
    {
        assert(ranges@.take(i + 1).drop_last() =~= ranges@.take(i as int));
        if ranges[i].begin != 0 {
            kept.push(ranges[i]);
        }
        i += 1;
    }
    assert(ranges@.take(i as int) =~= ranges@);
    kept
}

/// Whether a line program with the line advances `advances` can be run:
/// none of them is the least number there is, which has no opposite.
pub fn can_take_advances(advances: &Vec<Option<i64>>) -> (yes: bool)
    ensures
        yes == forall|i: int|
            0 <= i < advances@.len() ==> #[trigger] advances@[i] != Some(i64::MIN),
{
    let mut i: usize = 0;
    while i < advances.len()
        invariant
            i <= advances@.len(),
            forall|k: int| 0 <= k < i ==> #[trigger] advances@[k] != Some(i64::MIN),
        decreases advances@.len() - i,
    {
        match advances[i] {
            Some(lines) => {
                if lines == i64::MIN {
                    return false;
                }
            },
            None => {},
        }
        i += 1;
    }
    true
}

/// The candidates that the low and the high address of `entry` make.
fn pc_candidates_of(entry: &Entry) -> (candidates: Vec<Range>)
    ensures
        candidates@ == pc_candidates(*entry),
{
    let mut candidates: Vec<Range> = Vec::new();
    match entry.pc_range() {
        Some(range) => {
            candidates.push(range);
            assert(candidates@ =~= seq![range]);
        },
        None => {},
    }
    candidates
}

/// The ranges of the range list at `at`, with offsets counted from the low
/// address of the unit's first entry.
fn read_listed(at: usize, unit: &Unit, sections: &Sections) -> (list: Result<Vec<Range>, Failure>)
    ensures
        match listed(at, unit@, sections@) {
            Ok(ranges) => list matches Ok(read) && read@ == ranges,
            Err(kind) => list matches Err(failure) && failure.kind_spec() == kind,
        },
{
    if !can_read_addresses(unit.address_size) {
        return Err(Failure::AddressSize(unit.address_size));
    }
    match read_range_list(
        sections.debug_ranges.as_slice(),
        sections.little_endian,
        unit.version,
        unit.address_size,
        at,
        unit.root.base_address(),
    ) {
        Ok(list) => Ok(list),
        Err(error) => Err(Failure::Dwarf(error)),
    }
}

/// The ranges that the unit declares for itself.
///
/// Where the first entry refers to a range list, these are the ranges of
/// the list, with offsets counted from the low address of the entry, or
/// from zero if it has none. Else it is the one range between its low and
/// its high address, which is an address too or a size. A unit that says
/// neither has no ranges.
pub fn unit_ranges(unit: &Unit, sections: &Sections) -> (found: Result<Extracted, Failure>)
    ensures
        extracts(unit_candidates(unit@, sections@), found),
{
    let candidates = match unit.root.ranges {
        Some(AttrValue::RangesRef(at)) => match read_listed(at, unit, sections) {
            Ok(list) => list,
            Err(failure) => { return Err(failure); },
        },
        _ => pc_candidates_of(&unit.root),
    };
    Ok(extract(&candidates))
}

/// The ranges that the line program of the unit covers.
///
/// These are the sequences of the line program that the first entry
/// refers to, each from its first address to the address that ends it. A
/// sequence that begins at address zero is left out: it stands for code
/// that was not linked in. A unit without a line program has no ranges.
pub fn line_ranges(unit: &Unit, sections: &Sections) -> (found: Result<Extracted, Failure>)
    ensures
        extracts(line_candidates(unit@, sections@), found),
{
    let candidates = match unit.root.stmt_list {
        Some(AttrValue::LineRef(at)) => {
            if !can_read_addresses(unit.address_size) {
                return Err(Failure::AddressSize(unit.address_size));
            }
            let advances = read_line_advances(
                sections.debug_line.as_slice(),
                sections.little_endian,
                unit.address_size,
                at,
            );
            if !can_take_advances(&advances) {
                return Err(Failure::LineAdvance);
            }
            match read_line_sequences(
                sections.debug_line.as_slice(),
                sections.little_endian,
                unit.address_size,
                at,
            ) {
                Ok(sequences) => keep_begun(&sequences),
                Err(error) => { return Err(Failure::Dwarf(error)); },
            }
        },
        _ => Vec::new(),
    };
    Ok(extract(&candidates))
}

/// The ranges that the functions of the unit cover.
///
/// Every entry below the first that stands for a function adds its
/// ranges: those of its range list, with offsets counted from the low
/// address of the unit's first entry, or, where it has no ranges attribute,
/// the one range between its low and its high address. A function whose
/// low address is zero is left out: it has no code of its own in the file.
pub fn function_ranges(unit: &Unit, sections: &Sections) -> (found: Result<Extracted, Failure>)
    ensures
        extracts(function_candidates(unit@, sections@), found),
{
    let mut candidates: Vec<Range> = Vec::new();
    let mut i: usize = 0;
    while i < unit.rest.len()
        invariant
            i <= unit.rest@.len(),
            entries_candidates(unit.rest@.take(i as int), unit@, sections@) == Ok::<
                Seq<Range>,
                FailureKind,
            >(candidates@),
        decreases unit.rest@.len() - i,
    {
        let entry = unit.rest[i];
        assert(unit.rest@.take(i + 1).drop_last() =~= unit.rest@.take(i as int));
        assert(unit.rest@.take(i + 1).last() == entry);
        let ghost before = candidates@;
        if entry.is_subprogram() {
            match entry.ranges {
                None => {
                    let mut more = keep_begun(&pc_candidates_of(&entry));
                    candidates.append(&mut more);
                },
                Some(AttrValue::RangesRef(at)) => match read_listed(at, unit, sections) {
                    Ok(list) => {
                        let mut more = list;
                        candidates.append(&mut more);
                    },
                    Err(failure) => {
                        proof {
                            lemma_failure_lasts(unit.rest@, i + 1, unit@, sections@);
                        }
                        return Err(failure);
                    },
                },
                Some(_) => {
                    assert(before + Seq::<Range>::empty() =~= before);
                },
            }
        } else {
            assert(before + Seq::<Range>::empty() =~= before);
        }
        i += 1;
    }
    assert(unit.rest@.take(i as int) =~= unit.rest@);
    Ok(extract(&candidates))
}

/// Once the candidates of the first `n` entries fail, those of all
/// entries fail in the same way.
proof fn lemma_failure_lasts(entries: Seq<Entry>, n: int, unit: UnitView, sections: SectionsView)
    requires
        0 <= n <= entries.len(),
        entries_candidates(entries.take(n), unit, sections) is Err,
    ensures
        entries_candidates(entries, unit, sections) == entries_candidates(
            entries.take(n),
            unit,
            sections,
        ),
    decreases entries.len() - n,
{
    if n < entries.len() {
        assert(entries.take(n + 1).drop_last() =~= entries.take(n));
        lemma_failure_lasts(entries, n + 1, unit, sections);
    } else {
        assert(entries.take(n) =~= entries);
    }
}

} // verus!
