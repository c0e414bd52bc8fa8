//! The debug sections of an object file.

use crate::failure::Failure;
use object::{Object, ObjectSection};
use vstd::prelude::*;

verus! {

/// Whether the object file in `file` is little endian; `None` where the
/// bytes are no object file that can be read.
pub uninterp spec fn object_little_endian(file: Seq<u8>) -> Option<bool>;

/// The bytes of the section called `name` of the object file in `file`,
/// `Some(None)` where the file has no such section, and `None` where the
/// file or the section cannot be read.
pub uninterp spec fn object_section(file: Seq<u8>, name: Seq<char>) -> Option<Option<Seq<u8>>>;

/// Parses `file` with `File::parse` of the object crate and asks it
/// `is_little_endian`.
#[verifier::external_body]
fn read_byte_order(file: &[u8]) -> (order: Result<bool, object::Error>)
    ensures
        match order {
            Ok(little) => object_little_endian(file@) == Some(little),
            Err(_) => object_little_endian(file@) is None,
        },
{
    Ok(object::File::parse(file)?.is_little_endian())
}

/// Parses `file` with `File::parse` of the object crate, looks the section
/// up with `section_by_name` and copies what `uncompressed_data` gives for
/// it.
#[verifier::external_body]
fn read_section(file: &[u8], name: &str) -> (data: Result<Option<Vec<u8>>, object::Error>)
    ensures
        match data {
            Ok(Some(bytes)) => object_section(file@, name@) == Some(Some(bytes@)),
            Ok(None) => object_section(file@, name@) == Some(None::<Seq<u8>>),
            Err(_) => object_section(file@, name@) is None,
        },
{
    match object::File::parse(file)?.section_by_name(name) {
        Some(section) => Ok(Some(section.uncompressed_data()?.into_owned())),
        None => Ok(None),
    }
}

/// The five debug sections that the report is made from, and the byte
/// order of the file they come from.
#[derive(Clone, Debug)]
pub struct Sections {
    pub debug_abbrev: Vec<u8>,
    pub debug_info: Vec<u8>,
    pub debug_line: Vec<u8>,
    pub debug_ranges: Vec<u8>,
    pub debug_str: Vec<u8>,
    pub little_endian: bool,
}

/// [`Sections`] as plain sequences of bytes.
pub struct SectionsView {
    pub debug_abbrev: Seq<u8>,
    pub debug_info: Seq<u8>,
    pub debug_line: Seq<u8>,
    pub debug_ranges: Seq<u8>,
    pub debug_str: Seq<u8>,
    pub little_endian: bool,
}

impl View for Sections {
    type V = SectionsView;

    open spec fn view(&self) -> SectionsView {
        SectionsView {
            debug_abbrev: self.debug_abbrev@,
            debug_info: self.debug_info@,
            debug_line: self.debug_line@,
            debug_ranges: self.debug_ranges@,
            debug_str: self.debug_str@,
            little_endian: self.little_endian,
        }
    }
}

/// The bytes of a section, where a section that the file lacks counts as
/// empty; `None` where the file or the section cannot be read.
pub open spec fn section_or_empty(file: Seq<u8>, name: Seq<char>) -> Option<Seq<u8>> {
    match object_section(file, name) {
        Some(Some(bytes)) => Some(bytes),
        Some(None) => Some(Seq::empty()),
        None => None,
    }
}

/// The byte order and the five debug sections of the object file in
/// `file`; `None` where one of them cannot be read.
pub open spec fn sections_of(file: Seq<u8>) -> Option<SectionsView> {
    match (
        object_little_endian(file),
        section_or_empty(file, ".debug_abbrev"@),
        section_or_empty(file, ".debug_info"@),
        section_or_empty(file, ".debug_line"@),
        section_or_empty(file, ".debug_ranges"@),
        section_or_empty(file, ".debug_str"@),
    ) {
        (
            Some(little_endian),
            Some(debug_abbrev),
            Some(debug_info),
            Some(debug_line),
            Some(debug_ranges),
            Some(debug_str),
        ) => Some(
            SectionsView {
                debug_abbrev,
                debug_info,
                debug_line,
                debug_ranges,
                debug_str,
                little_endian,
            },
        ),
        _ => None,
    }
}

impl Sections {
    /// Reads the byte order and the five debug sections out of the bytes of
    /// an object file. A section that the file lacks is empty.
    pub fn load(file: &[u8]) -> (loaded: Result<Sections, Failure>)
        ensures
            match loaded {
                Ok(sections) => sections_of(file@) == Some(sections@),
                Err(failure) => sections_of(file@) is None && failure is Object,
            },
    {
        let little_endian = match read_byte_order(file) {
            Ok(little) => little,
            Err(error) => { return Err(Failure::Object(error)); },
        };
        let debug_abbrev = load_section(file, ".debug_abbrev")?;
        let debug_info = load_section(file, ".debug_info")?;
        let debug_line = load_section(file, ".debug_line")?;
        let debug_ranges = load_section(file, ".debug_ranges")?;
        let debug_str = load_section(file, ".debug_str")?;
        Ok(
            Sections {
                debug_abbrev,
                debug_info,
                debug_line,
                debug_ranges,
                debug_str,
                little_endian,
            },
        )
    }
}

/// Reads one section, taking a section that the file lacks as empty.
fn load_section(file: &[u8], name: &str) -> (data: Result<Vec<u8>, Failure>)
    ensures
        match data {
            Ok(bytes) => section_or_empty(file@, name@) == Some(bytes@),
            Err(error) => section_or_empty(file@, name@) is None && error is Object,
        },
{
    match read_section(file, name) {
        Ok(Some(bytes)) => Ok(bytes),
        Ok(None) => Ok(Vec::new()),
        Err(error) => Err(Failure::Object(error)),
    }
}

} // verus!
