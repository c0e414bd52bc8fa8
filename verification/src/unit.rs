//! The compilation units of the info section.

use crate::dwarf::{
    code_of, read_code_attributes, read_producer, read_reference_attributes, read_unit_heads,
    references_of, unit_entries, unit_heads, unit_producer, UnitHead,
};
use crate::entry::{AttrValue, Entry};
use crate::failure::{Failure, FailureKind};
use crate::object_file::{Sections, SectionsView};
use vstd::prelude::*;

verus! {

/// What is known of a compilation unit: the encoding that its header
/// gives, the producer that it names, its first entry, and the entries
/// below it in depth-first order.
#[derive(Clone, Debug)]
pub struct Unit {
    pub version: u16,
    pub address_size: u8,
    pub producer: Option<String>,
    pub root: Entry,
    pub rest: Vec<Entry>,
}

/// [`Unit`] as plain values.
pub struct UnitView {
    pub version: u16,
    pub address_size: u8,
    pub producer: Option<Seq<char>>,
    pub root: Entry,
    pub rest: Seq<Entry>,
}

impl View for Unit {
    type V = UnitView;

    open spec fn view(&self) -> UnitView {
        UnitView {
            version: self.version,
            address_size: self.address_size,
            producer: match self.producer {
                Some(name) => Some(name@),
                None => None,
            },
            root: self.root,
            rest: self.rest@,
        }
    }
}

/// The unit that stands at `head`: a failure where its entries or its
/// producer cannot be parsed or it has no entry, and else what was parsed.
pub open spec fn unit_at(head: UnitHead, sections: SectionsView) -> Result<UnitView, FailureKind> {
    match unit_entries(
        sections.debug_info,
        sections.debug_abbrev,
        sections.little_endian,
        head.offset,
    ) {
        None => Err(FailureKind::Dwarf),
        Some(entries) => if entries.len() == 0 {
            Err(FailureKind::NoRootEntry)
        } else {
            match unit_producer(
                sections.debug_info,
                sections.debug_abbrev,
                sections.debug_str,
                sections.little_endian,
                head.offset,
            ) {
                None => Err(FailureKind::Dwarf),
                Some(producer) => Ok(
                    UnitView {
                        version: head.version,
                        address_size: head.address_size,
                        producer,
                        root: entries[0],
                        rest: entries.drop_first(),
                    },
                ),
            }
        },
    }
}

/// The heads of the units of the info section, up to the first that cannot
/// be parsed, and the failure if there is such a unit.
pub fn read_heads(sections: &Sections) -> (found: (Vec<UnitHead>, Option<Failure>))
    ensures
        found.0@ == unit_heads(sections@.debug_info, sections@.little_endian).0,
        found.1 is Some == unit_heads(sections@.debug_info, sections@.little_endian).1,
        found.1 matches Some(failure) ==> failure is Dwarf,
{
    let (heads, error) = read_unit_heads(sections.debug_info.as_slice(), sections.little_endian);
    match error {
        Some(error) => (heads, Some(Failure::Dwarf(error))),
        None => (heads, None),
    }
}

/// Reads the unit that stands at `head`.
pub fn read_unit(head: &UnitHead, sections: &Sections) -> (found: Result<Unit, Failure>)
    ensures
        match unit_at(*head, sections@) {
            Ok(unit) => found matches Ok(read) && read@ == unit,
            Err(kind) => found matches Err(failure) && failure.kind_spec() == kind,
        },
{
    let code = match read_code_attributes(
        sections.debug_info.as_slice(),
        sections.debug_abbrev.as_slice(),
        sections.little_endian,
        head.offset,
    ) {
        Ok(code) => code,
        Err(error) => { return Err(Failure::Dwarf(error)); },
    };
    let references = match read_reference_attributes(
        sections.debug_info.as_slice(),
        sections.debug_abbrev.as_slice(),
        sections.little_endian,
        head.offset,
    ) {
        Ok(references) => references,
        Err(error) => { return Err(Failure::Dwarf(error)); },
    };
    let ghost entries = unit_entries(
        sections@.debug_info,
        sections@.debug_abbrev,
        sections@.little_endian,
        head.offset,
    )->0;
    if code.len() == 0 {
        return Err(Failure::NoRootEntry);
    }
    let producer = match read_producer(
        sections.debug_info.as_slice(),
        sections.debug_abbrev.as_slice(),
        sections.debug_str.as_slice(),
        sections.little_endian,
        head.offset,
    ) {
        Ok(producer) => producer,
        Err(error) => { return Err(Failure::Dwarf(error)); },
    };
    let root = entry_of(code[0], references[0]);
    let mut rest: Vec<Entry> = Vec::new();
    let mut i: usize = 1;
    while i < code.len()
        invariant
            1 <= i <= code@.len(),
            code@ == entries.map_values(|e: Entry| code_of(e)),
            references@ == entries.map_values(|e: Entry| references_of(e)),
            rest@ == entries.subrange(1, i as int),
        decreases code@.len() - i,
    {
        rest.push(entry_of(code[i], references[i]));
        assert(entries.subrange(1, i + 1) =~= entries.subrange(1, i as int).push(
            entries[i as int],
        ));
        i += 1;
    }
    assert(entries.subrange(1, i as int) =~= entries.drop_first());
    Ok(Unit { version: head.version, address_size: head.address_size, producer, root, rest })
}

/// The entry whose tag and addresses are `code` and whose references are
/// `references`.
fn entry_of(
    code: (u16, Option<AttrValue>, Option<AttrValue>),
    references: (Option<AttrValue>, Option<AttrValue>),
) -> (entry: Entry)
    ensures
        entry == (Entry {
            tag: code.0,
            low_pc: code.1,
            high_pc: code.2,
            ranges: references.0,
            stmt_list: references.1,
        }),
{
    Entry {
        tag: code.0,
        low_pc: code.1,
        high_pc: code.2,
        ranges: references.0,
        stmt_list: references.1,
    }
}

} // verus!
