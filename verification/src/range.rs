//! Half-open address intervals and the mathematics of sequences of them.
//!
//! Everything a [`crate::range_list::RangeList`] promises is stated over the
//! functions of this module, on plain sequences of [`Range`].

use vstd::prelude::*;

verus! {

/// A half-open interval `[begin, end)` of code addresses.
#[derive(Clone, Copy, Debug, PartialEq, Eq, Structural)]
pub struct Range {
    pub begin: u64,
    pub end: u64,
}

impl Range {
    /// A range is valid when it holds at least one address.
    pub open spec fn is_valid(self) -> bool {
        self.begin < self.end
    }

    /// Whether the address `x` lies in the interval.
    pub open spec fn contains(self, x: int) -> bool {
        self.begin <= x < self.end
    }
}

/// Every range of the sequence is valid.
pub open spec fn all_valid(s: Seq<Range>) -> bool {
    forall|i: int| 0 <= i < s.len() ==> (#[trigger] s[i]).is_valid()
}

/// Whether some range of the sequence holds the address `x`.
pub open spec fn covers(s: Seq<Range>, x: int) -> bool {
    exists|i: int| 0 <= i < s.len() && (#[trigger] s[i]).contains(x)
}

/// Whether `x` lies in the padding before some range of the sequence: in
/// the bytes before its begin that its alignment allows to be bridged.
pub open spec fn in_padding(s: Seq<Range>, x: int) -> bool {
    exists|i: int|
        0 <= i < s.len() && (#[trigger] s[i]).begin - padding(s[i].begin) <= x < s[i].begin
}

/// The gap that may lie before a range that begins at `begin` and still
/// count as alignment padding: fifteen bytes before a sixteen-byte aligned
/// address, none otherwise.
pub open spec fn padding(begin: u64) -> int {
    if begin % 16 == 0 {
        15
    } else {
        0
    }
}

/// `r` begins at or after the end of `prev`, and no further from it than
/// the padding that the alignment of `r.begin` allows.
pub open spec fn follows_closely(prev: Range, r: Range) -> bool {
    prev.end <= r.begin <= prev.end + padding(r.begin)
}

/// `s` with the end of its last range moved forward to `end`, if `end` lies
/// beyond it.
pub open spec fn extend_last(s: Seq<Range>, end: u64) -> Seq<Range>
    recommends
        s.len() > 0,
{
    s.update(
        s.len() - 1,
        Range { begin: s.last().begin, end: if s.last().end < end { end } else { s.last().end } },
    )
}

/// What becomes of a pushed range.
#[derive(Clone, Copy, Debug, PartialEq, Eq, Structural)]
pub enum Pushed {
    /// The range ends before it begins; it was dropped.
    Invalid,
    /// The range holds no address; it was dropped.
    Empty,
    /// The range was joined to the last range of the list.
    Merged,
    /// The range became the new last range of the list.
    Appended,
}

/// What pushing `r` onto `s` does with `r`.
pub open spec fn push_outcome(s: Seq<Range>, r: Range) -> Pushed {
    if r.end < r.begin {
        Pushed::Invalid
    } else if r.end == r.begin {
        Pushed::Empty
    } else if s.len() > 0 && follows_closely(s.last(), r) {
        Pushed::Merged
    } else {
        Pushed::Appended
    }
}

/// The list after `r` was pushed onto `s`: an invalid or empty range leaves
/// the list as it is, a range that follows the last one closely is joined to
/// it, any other range is appended.
pub open spec fn push_spec(s: Seq<Range>, r: Range) -> Seq<Range> {
    match push_outcome(s, r) {
        Pushed::Invalid | Pushed::Empty => s,
        Pushed::Merged => extend_last(s, r.end),
        Pushed::Appended => s.push(r),
    }
}

/// The begins never decrease along the sequence.
pub open spec fn sorted_by_begin(s: Seq<Range>) -> bool {
    forall|i: int, j: int| 0 <= i < j < s.len() ==> s[i].begin <= s[j].begin
}

/// The order in which ranges are sorted: by begin, and by end among ranges
/// with the same begin.
pub open spec fn begin_then_end(a: Range, b: Range) -> bool {
    a.begin < b.begin || (a.begin == b.begin && a.end <= b.end)
}

/// [`begin_then_end`] as a relation.
pub open spec fn range_order() -> spec_fn(Range, Range) -> bool {
    |a: Range, b: Range| begin_then_end(a, b)
}

/// One step of coalescing: `r` is joined to the last range of `s` if it
/// overlaps it or follows it closely, and appended otherwise.
pub open spec fn absorb(s: Seq<Range>, r: Range) -> Seq<Range> {
    if s.len() > 0 && r.begin < s.last().end {
        extend_last(s, r.end)
    } else {
        push_spec(s, r)
    }
}

/// The ranges of `s` absorbed one after the other, starting from nothing.
pub open spec fn coalesce(s: Seq<Range>) -> Seq<Range>
    decreases s.len(),
{
    if s.len() == 0 {
        Seq::empty()
    } else {
        absorb(coalesce(s.drop_last()), s.last())
    }
}

/// The normal form of `s`: its ranges sorted by begin and coalesced.
pub open spec fn normalize(s: Seq<Range>) -> Seq<Range> {
    coalesce(s.sort_by(range_order()))
}

/// A sequence is normalized when its ranges are valid and each begins
/// beyond the end of every earlier one by more than the padding that its
/// own alignment allows. Such a sequence is strictly sorted and no two of
/// its ranges overlap or touch.
pub open spec fn is_normalized(s: Seq<Range>) -> bool {
    &&& all_valid(s)
    &&& forall|i: int, j: int|
        0 <= i < j < s.len() ==> s[i].end + padding(s[j].begin) < s[j].begin
}

/// A sequence is separated when its ranges are valid, sorted, and no two
/// of them overlap; neighbours may touch.
pub open spec fn is_separated(s: Seq<Range>) -> bool {
    &&& all_valid(s)
    &&& forall|i: int, j: int| 0 <= i < j < s.len() ==> s[i].end <= s[j].begin
}

/// What is left of the ranges of `a` once every address that a range of `b`
/// holds is taken out, range by range and in ascending order. It is meant
/// for separated `a` and `b`.
pub open spec fn difference(a: Seq<Range>, b: Seq<Range>) -> Seq<Range>
    decreases a.len() + b.len(),
{
    if a.len() == 0 {
        Seq::empty()
    } else if b.len() == 0 {
        a
    } else if b[0].end <= a[0].begin {
        difference(a, b.drop_first())
    } else if a[0].end <= b[0].begin {
        seq![a[0]] + difference(a.drop_first(), b)
    } else {
        let head = if a[0].begin < b[0].begin {
            seq![Range { begin: a[0].begin, end: b[0].begin }]
        } else {
            Seq::empty()
        };
        if b[0].end < a[0].end {
            head + difference(
                seq![Range { begin: b[0].end, end: a[0].end }] + a.drop_first(),
                b.drop_first(),
            )
        } else {
            head + difference(a.drop_first(), b)
        }
    }
}

/// The pairs of neighbours in `s` of which the first ends beyond the begin
/// of the second, in order.
pub open spec fn adjacent_overlaps(s: Seq<Range>) -> Seq<(Range, Range)>
    decreases s.len(),
{
    if s.len() < 2 {
        Seq::empty()
    } else if s[s.len() - 2].end > s.last().begin {
        adjacent_overlaps(s.drop_last()).push((s[s.len() - 2], s.last()))
    } else {
        adjacent_overlaps(s.drop_last())
    }
}

/// The difference of two lists as `subtract` computes it: both are
/// normalized, the ranges of the first are cut by those of the second, and
/// what is left is normalized again.
pub open spec fn subtract_spec(a: Seq<Range>, b: Seq<Range>) -> Seq<Range> {
    normalize(difference(normalize(a), normalize(b)))
}

} // verus!
