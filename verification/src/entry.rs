//! What the extractors read of a debugging information entry.

use crate::range::Range;
use vstd::prelude::*;

verus! {

/// The tag of an entry that stands for a function.
pub const TAG_SUBPROGRAM: u16 = 0x2e;

/// The value of an attribute, as far as the extractors tell values apart.
#[derive(Clone, Copy, Debug, PartialEq, Eq)]
pub enum AttrValue {
    /// An address.
    Addr(u64),
    /// An unsigned constant.
    Udata(u64),
    /// The offset of a range list in the ranges section.
    RangesRef(usize),
    /// The offset of a line program in the line section.
    LineRef(usize),
    /// A value of any other kind.
    Other,
}

/// One debugging information entry: its tag, and the attributes that say
/// which addresses it covers. An attribute that the entry lacks is `None`.
///
/// Of the low and the high address it is told whether they are an
/// address, an unsigned constant or something else; of the ranges and the
/// line program, whether they are a reference to a range list, a
/// reference to a line program or something else.
#[derive(Clone, Copy, Debug, PartialEq, Eq)]
pub struct Entry {
    pub tag: u16,
    pub low_pc: Option<AttrValue>,
    pub high_pc: Option<AttrValue>,
    pub ranges: Option<AttrValue>,
    pub stmt_list: Option<AttrValue>,
}

/// `low + size`, wrapped around at the end of the address space.
pub open spec fn end_of(low: u64, size: u64) -> u64 {
    if low + size > u64::MAX {
        (low + size - 0x1_0000_0000_0000_0000) as u64
    } else {
        (low + size) as u64
    }
}

impl Entry {
    /// The address that the offsets of a range list count from: the low
    /// address of the entry if it is an address, and zero otherwise.
    pub open spec fn base_address_spec(self) -> u64 {
        match self.low_pc {
            Some(AttrValue::Addr(addr)) => addr,
            _ => 0,
        }
    }

    /// The range between the low and the high address of the entry. The
    /// low address has to be an address; the high one is an address too, or
    /// a size that is added to the low one.
    pub open spec fn pc_range_spec(self) -> Option<Range> {
        match self.low_pc {
            Some(AttrValue::Addr(low)) => match self.high_pc {
                Some(AttrValue::Addr(high)) => Some(Range { begin: low, end: high }),
                Some(AttrValue::Udata(size)) => Some(Range { begin: low, end: end_of(low, size) }),
                _ => None,
            },
            _ => None,
        }
    }

    /// Whether the entry stands for a function.
    pub open spec fn is_subprogram_spec(self) -> bool {
        self.tag == TAG_SUBPROGRAM
    }

    /// See [`Entry::base_address_spec`].
    pub fn base_address(&self) -> (base: u64)
        ensures
            base == self.base_address_spec(),
    {
        match self.low_pc {
            Some(AttrValue::Addr(addr)) => addr,
            _ => 0,
        }
    }

    /// See [`Entry::pc_range_spec`].
    pub fn pc_range(&self) -> (range: Option<Range>)
        ensures
            range == self.pc_range_spec(),
    {
        let low: u64 = match self.low_pc {
            Some(AttrValue::Addr(low)) => low,
            _ => { return None; },
        };
        match self.high_pc {
            Some(AttrValue::Addr(high)) => Some(Range { begin: low, end: high }),
            Some(AttrValue::Udata(size)) => Some(Range { begin: low, end: low.wrapping_add(size) }),
            _ => None,
        }
    }

    /// See [`Entry::is_subprogram_spec`].
    pub fn is_subprogram(&self) -> (yes: bool)
        ensures
            yes == self.is_subprogram_spec(),
    {
        self.tag == TAG_SUBPROGRAM
    }
}

} // verus!
