//! Why a file cannot be reported on.

use vstd::prelude::*;

verus! {

#[verifier::external_type_specification]
#[verifier::external_body]
pub struct ExObjectError(object::Error);

#[verifier::external_type_specification]
#[verifier::external_body]
pub struct ExParseError(gimli::Error);

/// Why a file cannot be reported on.
#[derive(Debug)]
pub enum Failure {
    /// The file is no object file that can be read; the parser's own
    /// error says why.
    Object(object::Error),
    /// The debug information cannot be parsed; the parser's own error says
    /// why.
    Dwarf(gimli::Error),
    /// A unit has addresses of a size that cannot be read.
    AddressSize(u8),
    /// A unit holds no entry at all.
    NoRootEntry,
    /// A line program moves the line back by more lines than can be
    /// counted.
    LineAdvance,
}

/// The kinds of [`Failure`].
#[derive(Clone, Copy, Debug, PartialEq, Eq, Structural)]
pub enum FailureKind {
    Object,
    Dwarf,
    AddressSize(u8),
    NoRootEntry,
    LineAdvance,
}

impl Failure {
    /// The kind of the failure.
    pub open spec fn kind_spec(self) -> FailureKind {
        match self {
            Failure::Object(_) => FailureKind::Object,
            Failure::Dwarf(_) => FailureKind::Dwarf,
            Failure::AddressSize(size) => FailureKind::AddressSize(size),
            Failure::NoRootEntry => FailureKind::NoRootEntry,
            Failure::LineAdvance => FailureKind::LineAdvance,
        }
    }

    /// The kind of the failure.
    pub fn kind(&self) -> (kind: FailureKind)
        ensures
            kind == self.kind_spec(),
    {
        match self {
            Failure::Object(_) => FailureKind::Object,
            Failure::Dwarf(_) => FailureKind::Dwarf,
            Failure::AddressSize(size) => FailureKind::AddressSize(*size),
            Failure::NoRootEntry => FailureKind::NoRootEntry,
            Failure::LineAdvance => FailureKind::LineAdvance,
        }
    }
}

} // verus!
