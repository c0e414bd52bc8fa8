//! The report on an object file: for each compilation unit its producer,
//! the three views of its code, and what each view covers that another
//! does not.

use crate::dwarf::{unit_heads, UnitHead};
use crate::extract::{
    function_candidates, function_ranges, line_candidates, line_ranges, unit_candidates,
    unit_ranges, view_of, Extracted, ExtractedView,
};
use crate::failure::{Failure, FailureKind};
use crate::object_file::{sections_of, Sections, SectionsView};
use crate::range::Range;
use crate::range_list::RangeList;
use crate::text::{comparison, overlap_lines, range_lines, write_overlaps, write_ranges};
use crate::unit::{read_heads, read_unit, unit_at, Unit, UnitView};
use vstd::prelude::*;
use vstd::string::StringExecFns;

verus! {

/// What there is to say of an object file.
#[derive(Debug)]
pub struct Report {
    /// The text for the standard output.
    pub output: String,
    /// The text for the standard error stream: a line for each range that
    /// was dropped because it ends before it begins.
    pub diagnostics: String,
    /// Why the report ends early, if it does.
    pub failure: Option<Failure>,
}

/// [`Report`] as plain values.
pub struct ReportView {
    pub output: Seq<char>,
    pub diagnostics: Seq<char>,
    pub failure: Option<FailureKind>,
}

impl View for Report {
    type V = ReportView;

    open spec fn view(&self) -> ReportView {
        ReportView {
            output: self.output@,
            diagnostics: self.diagnostics@,
            failure: match self.failure {
                Some(failure) => Some(failure.kind_spec()),
                None => None,
            },
        }
    }
}

/// The lines that open the report on a unit: an empty line, and the
/// producer that the unit names, or `<unknown>`.
pub open spec fn producer_text(producer: Option<Seq<char>>) -> Seq<char> {
    "\nproducer: "@ + match producer {
        Some(name) => name,
        None => "<unknown>"@,
    } + "\n"@
}

/// The lines for one view: a line for each pair of overlapping neighbours,
/// the name of the view, and the ranges of the view.
pub open spec fn section_text(name: Seq<char>, found: ExtractedView) -> Seq<char> {
    overlap_lines(name + " overlap: "@, found.overlaps) + name + ":\n"@ + range_lines(
        Seq::empty(),
        found.ranges,
    )
}

/// A line for each range of the view that was dropped as invalid.
pub open spec fn invalid_text(found: ExtractedView) -> Seq<char> {
    range_lines("invalid range: "@, found.invalid)
}

/// The lines that compare two views: their names, and what each covers
/// that the other does not.
pub open spec fn versus_text(
    first: Seq<char>,
    second: Seq<char>,
    a: Seq<Range>,
    b: Seq<Range>,
) -> Seq<char> {
    first + " vs "@ + second + ":\n"@ + comparison(a, b)
}

/// The report on one unit. It ends with the first view that cannot be
/// made, and holds what was written before.
#[verifier::opaque]
pub open spec fn unit_report(unit: UnitView, sections: SectionsView) -> ReportView {
    let opening = producer_text(unit.producer);
    match view_of(unit_candidates(unit, sections)) {
        Err(kind) => ReportView {
            output: opening,
            diagnostics: Seq::empty(),
            failure: Some(kind),
        },
        Ok(own) => match view_of(line_candidates(unit, sections)) {
            Err(kind) => ReportView {
                output: opening + section_text("unit"@, own),
                diagnostics: invalid_text(own),
                failure: Some(kind),
            },
            Ok(line) => match view_of(function_candidates(unit, sections)) {
                Err(kind) => ReportView {
                    output: opening + section_text("unit"@, own) + section_text("line"@, line),
                    diagnostics: invalid_text(own) + invalid_text(line),
                    failure: Some(kind),
                },
                Ok(function) => ReportView {
                    output: opening + section_text("unit"@, own) + section_text("line"@, line)
                        + section_text("function"@, function) + versus_text(
                        "unit"@,
                        "line"@,
                        own.ranges,
                        line.ranges,
                    ) + versus_text("unit"@, "function"@, own.ranges, function.ranges)
                        + versus_text("line"@, "function"@, line.ranges, function.ranges),
                    diagnostics: invalid_text(own) + invalid_text(line) + invalid_text(function),
                    failure: None,
                },
            },
        },
    }
}

/// The report on the units at `heads`, one after the other. It ends with
/// the first unit that cannot be read or reported on.
pub open spec fn units_report(heads: Seq<UnitHead>, sections: SectionsView) -> ReportView
    decreases heads.len(),
{
    if heads.len() == 0 {
        ReportView { output: Seq::empty(), diagnostics: Seq::empty(), failure: None }
    } else {
        let before = units_report(heads.drop_last(), sections);
        if before.failure is Some {
            before
        } else {
            match unit_at(heads.last(), sections) {
                Err(kind) => ReportView {
                    output: before.output,
                    diagnostics: before.diagnostics,
                    failure: Some(kind),
                },
                Ok(unit) => ReportView {
                    output: before.output + unit_report(unit, sections).output,
                    diagnostics: before.diagnostics + unit_report(unit, sections).diagnostics,
                    failure: unit_report(unit, sections).failure,
                },
            }
        }
    }
}

/// The report on the units of the info section. Where a unit header
/// cannot be parsed, the report holds the units before it and fails.
pub open spec fn sections_report(sections: SectionsView) -> ReportView {
    let heads = unit_heads(sections.debug_info, sections.little_endian);
    let units = units_report(heads.0, sections);
    if units.failure is None && heads.1 {
        ReportView {
            output: units.output,
            diagnostics: units.diagnostics,
            failure: Some(FailureKind::Dwarf),
        }
    } else {
        units
    }
}

/// The report on the object file in `file`.
pub open spec fn file_report(file: Seq<u8>) -> ReportView {
    match sections_of(file) {
        None => ReportView {
            output: Seq::empty(),
            diagnostics: Seq::empty(),
            failure: Some(FailureKind::Object),
        },
        Some(sections) => sections_report(sections),
    }
}

/// The lines that open the report on a unit.
pub fn producer(unit: &Unit) -> (text: String)
    ensures
        text@ == producer_text(unit@.producer),
{
    let mut text = String::from_str("\nproducer: ");
    match &unit.producer {
        Some(name) => text.append(name.as_str()),
        None => text.append("<unknown>"),
    }
    text.append("\n");
    text
}

/// The lines for the view `found`, under the name `name`.
pub fn write_section(name: &str, found: &Extracted) -> (text: String)
    ensures
        text@ == section_text(name@, found@),
{
    let mut prefix = String::from_str(name);
    prefix.append(" overlap: ");
    let mut text = write_overlaps(prefix.as_str(), &found.overlaps);
    text.append(name);
    text.append(":\n");
    let ranges = found.ranges.print();
    text.append(ranges.as_str());
    text
}

/// The lines that compare the lists `a` and `b`, under their names.
pub fn write_versus(first: &str, second: &str, a: &RangeList, b: &RangeList) -> (text: String)
    ensures
        text@ == versus_text(first@, second@, a@, b@),
{
    let mut text = String::from_str(first);
    text.append(" vs ");
    text.append(second);
    text.append(":\n");
    let compared = a.cmp(b);
    text.append(compared.as_str());
    text
}

/// A line for each range that the view `found` dropped as invalid.
pub fn write_invalid(found: &Extracted) -> (text: String)
    ensures
        text@ == invalid_text(found@),
{
    write_ranges("invalid range: ", &found.invalid)
}

/// Reports on one unit: its producer, its three views, and what each view
/// covers that another does not.
pub fn report_unit(unit: &Unit, sections: &Sections) -> (report: Report)
    ensures
        report@ == unit_report(unit@, sections@),
{
    reveal(unit_report);
    let mut output = producer(unit);
    let mut diagnostics = String::new();
    let own = match unit_ranges(unit, sections) {
        Ok(own) => own,
        Err(failure) => {
            return Report { output, diagnostics, failure: Some(failure) };
        },
    };
    output.append(write_section("unit", &own).as_str());
    diagnostics.append(write_invalid(&own).as_str());
    let line = match line_ranges(unit, sections) {
        Ok(line) => line,
        Err(failure) => {
            return Report { output, diagnostics, failure: Some(failure) };
        },
    };
    output.append(write_section("line", &line).as_str());
    diagnostics.append(write_invalid(&line).as_str());
    let function = match function_ranges(unit, sections) {
        Ok(function) => function,
        Err(failure) => {
            return Report { output, diagnostics, failure: Some(failure) };
        },
    };
    output.append(write_section("function", &function).as_str());
    diagnostics.append(write_invalid(&function).as_str());
    output.append(write_versus("unit", "line", &own.ranges, &line.ranges).as_str());
    output.append(write_versus("unit", "function", &own.ranges, &function.ranges).as_str());
    output.append(write_versus("line", "function", &line.ranges, &function.ranges).as_str());
    Report { output, diagnostics, failure: None }
}

/// Reports on every unit of the info section, in the order of the section.
pub fn report_sections(sections: &Sections) -> (report: Report)
    ensures
        report@ == sections_report(sections@),
{
    let (heads, broken) = read_heads(sections);
    let mut output = String::new();
    let mut diagnostics = String::new();
    let mut i: usize = 0;
    while i < heads.len()
        invariant
            i <= heads@.len(),
            heads@ == unit_heads(sections@.debug_info, sections@.little_endian).0,
            units_report(heads@.take(i as int), sections@) == (ReportView {
                output: output@,
                diagnostics: diagnostics@,
                failure: None,
            }),
        decreases heads@.len() - i,
    {
        let ghost now = units_report(heads@.take(i + 1), sections@);
        assert(heads@.take(i + 1).drop_last() =~= heads@.take(i as int));
        assert(heads@.take(i + 1).last() == heads@[i as int]);
        let unit = match read_unit(&heads[i], sections) {
            Ok(unit) => unit,
            Err(failure) => {
                let report = Report { output, diagnostics, failure: Some(failure) };
                proof {
                    assert(report@ == now);
                    lemma_failure_ends_report(heads@, i + 1, sections@);
                }
                return report;
            },
        };
        let one = report_unit(&unit, sections);
        output.append(one.output.as_str());
        diagnostics.append(one.diagnostics.as_str());
        if one.failure.is_some() {
            let report = Report { output, diagnostics, failure: one.failure };
            proof {
                assert(report@ == now);
                lemma_failure_ends_report(heads@, i + 1, sections@);
            }
            return report;
        }
        assert(now == (ReportView { output: output@, diagnostics: diagnostics@, failure: None }));
        i += 1;
    }
    assert(heads@.take(i as int) =~= heads@);
    Report { output, diagnostics, failure: broken }
}

/// Reports on the object file whose bytes are `file`.
pub fn report(file: &[u8]) -> (report: Report)
    ensures
        report@ == file_report(file@),
{
    match Sections::load(file) {
        Ok(sections) => report_sections(&sections),
        Err(failure) => Report {
            output: String::new(),
            diagnostics: String::new(),
            failure: Some(failure),
        },
    }
}

/// Once the report on the first `n` units has failed, it is the report on
/// all units.
proof fn lemma_failure_ends_report(heads: Seq<UnitHead>, n: int, sections: SectionsView)
    requires
        0 <= n <= heads.len(),
        units_report(heads.take(n), sections).failure is Some,
    ensures
        units_report(heads, sections) == units_report(heads.take(n), sections),
    decreases heads.len() - n,
{
    if n < heads.len() {
        assert(heads.take(n + 1).drop_last() =~= heads.take(n));
        lemma_failure_ends_report(heads, n + 1, sections);
    } else {
        assert(heads.take(n) =~= heads);
    }
}

} // verus!
