//! The coalesced range set.

use crate::laws::{
    lemma_difference_is_separated, lemma_normalize_is_normalized, lemma_normalized_is_separated,
    lemma_push_keeps_order, lemma_range_order_total, lemma_sort_keeps_ranges,
};
use crate::range::{
    absorb, adjacent_overlaps, all_valid, coalesce, difference, extend_last, is_normalized,
    normalize, push_outcome, push_spec, range_order, sorted_by_begin, subtract_spec, Pushed,
    Range,
};
use crate::text::{comparison, range_lines, write_ranges};
use vstd::prelude::*;
use vstd::relations::sorted_by;
use vstd::seq_lib::lemma_sorted_unique;
use vstd::string::StringExecFns;

verus! {

/// An ordered list of valid half-open address ranges.
///
/// Ranges enter through [`RangeList::push`], which drops what holds no
/// address, so every stored range is valid at all times. The list is in
/// normal form after [`RangeList::sort`].
#[derive(Debug)]
pub struct RangeList {
    ranges: Vec<Range>,
}

impl View for RangeList {
    type V = Seq<Range>;

    closed spec fn view(&self) -> Seq<Range> {
        self.ranges@
    }
}

impl Default for RangeList {
    fn default() -> (list: RangeList)
        ensures
            list@ == Seq::<Range>::empty(),
    {
        RangeList { ranges: Vec::new() }
    }
}

impl Clone for RangeList {
    fn clone(&self) -> (copy: RangeList)
        ensures
            copy@ == self@,
    {
        proof {
            use_type_invariant(self);
        }
        let mut ranges: Vec<Range> = Vec::new();
        let mut i: usize = 0;
        while i < self.ranges.len()
            invariant
                i <= self.ranges@.len(),
                ranges@ == self.ranges@.take(i as int),
            decreases self.ranges@.len() - i,
        {
            ranges.push(self.ranges[i]);
            assert(self.ranges@.take(i + 1) =~= self.ranges@.take(i as int).push(
                self.ranges@[i as int],
            ));
            i += 1;
        }
        assert(self.ranges@.take(i as int) =~= self.ranges@);
        RangeList { ranges }
    }
}

/// `begin & !15 == begin` holds of the sixteen-byte aligned addresses.
proof fn lemma_aligned(begin: u64)
    ensures
        (begin & !15u64 == begin) <==> begin % 16 == 0,
{
    assert((begin & !15u64 == begin) <==> begin % 16 == 0) by (bit_vector);
}

/// Sorts `ranges` by begin, and by end among equal begins, with
/// `sort_by_key` of std's slices. std documents that the slice is sorted in
/// ascending order of the key; that sorting only rearranges the elements
/// is stated here as the equality of the multisets before and after.
#[verifier::external_body]
fn sort_by_begin_then_end(ranges: &mut Vec<Range>)
    ensures
        sorted_by(final(ranges)@, range_order()),
        final(ranges)@.to_multiset() == old(ranges)@.to_multiset(),
{
    ranges.sort_by_key(|r| (r.begin, r.end));
}

/// Cuts the ranges of `a` by those of `b` in one pass over both.
fn cut(a: &Vec<Range>, b: &Vec<Range>) -> (pieces: Vec<Range>)
    ensures
        pieces@ == difference(a@, b@),
{
    let mut pieces: Vec<Range> = Vec::new();
    let mut i: usize = 0;
    let mut j: usize = 0;
    if a.len() == 0 {
        return pieces;
    }
    // The part of `a[i]` that no range of `b` has been held against yet.
    let mut w = a[0];
    assert(seq![w] + a@.skip(1) =~= a@);
    assert(b@.skip(0) =~= b@);
    while i < a.len()
        invariant
            i <= a@.len(),
            j <= b@.len(),
            i < a@.len() ==> pieces@ + difference(seq![w] + a@.skip(i + 1), b@.skip(j as int))
                == difference(a@, b@),
            i == a@.len() ==> pieces@ == difference(a@, b@),
        decreases a@.len() - i + b@.len() - j,
    {
        let ghost left = seq![w] + a@.skip(i + 1);
        let ghost right = b@.skip(j as int);
        let ghost before = pieces@;
        let mut done = false;
        assert(left[0] == w);
        assert(left.drop_first() =~= a@.skip(i + 1));
        if j == b.len() {
            pieces.push(w);
            done = true;
            assert(before + left =~= before.push(w) + a@.skip(i + 1));
        } else {
            let o = b[j];
            assert(right[0] == o);
            assert(right.drop_first() =~= b@.skip(j + 1));
            if o.end <= w.begin {
                j += 1;
            } else if w.end <= o.begin {
                pieces.push(w);
                done = true;
                assert(before + (seq![w] + difference(a@.skip(i + 1), right)) =~= before.push(w)
                    + difference(a@.skip(i + 1), right));
            } else {
                let ghost head = if w.begin < o.begin {
                    seq![Range { begin: w.begin, end: o.begin }]
                } else {
                    Seq::empty()
                };
                if w.begin < o.begin {
                    pieces.push(Range { begin: w.begin, end: o.begin });
                }
                assert(pieces@ =~= before + head);
                if o.end < w.end {
                    w = Range { begin: o.end, end: w.end };
                    j += 1;
                    assert(before + (head + difference(seq![w] + a@.skip(i + 1), b@.skip(j as int)))
                        =~= pieces@ + difference(seq![w] + a@.skip(i + 1), b@.skip(j as int)));
                } else {
                    done = true;
                    assert(before + (head + difference(a@.skip(i + 1), right)) =~= pieces@
                        + difference(a@.skip(i + 1), right));
                }
            }
        }
        if done {
            i += 1;
            if i < a.len() {
                w = a[i];
                assert(seq![w] + a@.skip(i + 1) =~= a@.skip(i as int));
            } else {
                assert(a@.skip(i as int) =~= Seq::<Range>::empty());
                assert(pieces@ + Seq::<Range>::empty() =~= pieces@);
            }
        }
    }
    pieces
}

impl RangeList {
    #[verifier::type_invariant]
    spec fn stores_valid_ranges(self) -> bool {
        all_valid(self.ranges@)
    }

    /// The empty list.
    pub fn new() -> (list: RangeList)
        ensures
            list@ == Seq::<Range>::empty(),
    {
        RangeList { ranges: Vec::new() }
    }

    /// The stored ranges, in order.
    pub fn ranges(&self) -> (ranges: &Vec<Range>)
        ensures
            ranges@ == self@,
            all_valid(self@),
    {
        proof {
            use_type_invariant(self);
        }
        &self.ranges
    }

    /// Adds `range` at the end of the list, joining it to the last range
    /// where it follows that range closely.
    ///
    /// A range that ends before it begins is dropped and reported as
    /// [`Pushed::Invalid`]; one that holds no address is dropped silently.
    /// A range that begins before the end of the last one is appended as it
    /// is: only [`RangeList::sort`] puts such a list in order.
    pub fn push(&mut self, range: Range) -> (outcome: Pushed)
        ensures
            final(self)@ == push_spec(old(self)@, range),
            outcome == push_outcome(old(self)@, range),
            all_valid(final(self)@),
            sorted_by_begin(final(self)@) <==> sorted_by_begin(old(self)@) && (outcome
                == Pushed::Appended && old(self)@.len() > 0 ==> old(self)@.last().begin
                <= range.begin),
    {
        proof {
            use_type_invariant(&*self);
            lemma_push_keeps_order(self@, range);
        }
        if range.end < range.begin {
            return Pushed::Invalid;
        }
        if range.end == range.begin {
            return Pushed::Empty;
        }
        let len: usize = self.ranges.len();
        if len > 0 {
            let prev = self.ranges[len - 1];
            proof {
                lemma_aligned(range.begin);
            }
            let allowed: u64 = if range.begin == range.begin & !15 {
                15
            } else {
                0
            };
            if range.begin >= prev.end && range.begin - prev.end <= allowed {
                self.extend(range.end);
                return Pushed::Merged;
            }
        }
        self.append(range);
        Pushed::Appended
    }

    /// Puts the list in normal form: the ranges are sorted by begin, and
    /// ranges that overlap, touch or are parted by alignment padding only
    /// are joined.
    pub fn sort(&mut self)
        ensures
            final(self)@ == normalize(old(self)@),
            is_normalized(final(self)@),
    {
        proof {
            use_type_invariant(&*self);
            lemma_normalize_is_normalized(self@);
        }
        let mut ranges: Vec<Range> = Vec::new();
        core::mem::swap(&mut self.ranges, &mut ranges);
        sort_by_begin_then_end(&mut ranges);
        proof {
            lemma_sort_keeps_ranges(old(self)@);
            lemma_range_order_total();
            lemma_sorted_unique(ranges@, old(self)@.sort_by(range_order()), range_order());
        }
        let mut i: usize = 0;
        while i < ranges.len()
            invariant
                i <= ranges@.len(),
                all_valid(ranges@),
                self@ == coalesce(ranges@.take(i as int)),
            decreases ranges@.len() - i,
        {
            self.absorb(ranges[i]);
            assert(ranges@.take(i + 1).drop_last() =~= ranges@.take(i as int));
            i += 1;
        }
        assert(ranges@.take(i as int) =~= ranges@);
    }

    /// The list of what `self` covers and `other` does not.
    ///
    /// Both lists are taken in normal form, so the caller need not have
    /// sorted them. The ranges of `self` are cut by those of `other`, and
    /// what is left is put in normal form: two pieces parted by alignment
    /// padding only come out as one range.
    pub fn subtract(&self, other: &RangeList) -> (rest: RangeList)
        ensures
            rest@ == subtract_spec(self@, other@),
            is_normalized(rest@),
    {
        let mut a = self.clone();
        a.sort();
        let mut b = other.clone();
        b.sort();
        let pieces = cut(&a.ranges, &b.ranges);
        proof {
            lemma_normalized_is_separated(a@);
            lemma_normalized_is_separated(b@);
            lemma_difference_is_separated(a@, b@);
        }
        let mut rest = RangeList { ranges: pieces };
        rest.sort();
        rest
    }

    /// The pairs of neighbours of which the first ends beyond the begin of
    /// the second.
    pub fn overlaps(&self) -> (pairs: Vec<(Range, Range)>)
        ensures
            pairs@ == adjacent_overlaps(self@),
    {
        let mut pairs: Vec<(Range, Range)> = Vec::new();
        let mut i: usize = 1;
        if self.ranges.len() < 2 {
            return pairs;
        }
        assert(self.ranges@.take(1).len() < 2);
        while i < self.ranges.len()
            invariant
                1 <= i <= self.ranges@.len(),
                pairs@ == adjacent_overlaps(self.ranges@.take(i as int)),
            decreases self.ranges@.len() - i,
        {
            let first = self.ranges[i - 1];
            let second = self.ranges[i];
            assert(self.ranges@.take(i + 1).drop_last() =~= self.ranges@.take(i as int));
            if first.end > second.begin {
                pairs.push((first, second));
            }
            i += 1;
        }
        assert(self.ranges@.take(i as int) =~= self.ranges@);
        pairs
    }

    /// The list as text: one line for each range, its begin and its end in
    /// hexadecimal with two dots between them.
    pub fn print(&self) -> (text: String)
        ensures
            text@ == range_lines(Seq::empty(), self@),
    {
        proof {
            reveal_strlit("");
        }
        assert(""@ =~= Seq::<char>::empty());
        write_ranges("", &self.ranges)
    }

    /// The two differences between `self` and `other` as text: first what
    /// only `self` covers, each line behind `- `, then what only `other`
    /// covers, each line behind `+ `.
    pub fn cmp(&self, other: &RangeList) -> (text: String)
        ensures
            text@ == comparison(self@, other@),
    {
        proof {
            reveal_strlit("- ");
            reveal_strlit("+ ");
        }
        assert("- "@ =~= seq!['-', ' ']);
        assert("+ "@ =~= seq!['+', ' ']);
        let missing = self.subtract(other);
        let mut text = write_ranges("- ", &missing.ranges);
        let added = other.subtract(self);
        let more = write_ranges("+ ", &added.ranges);
        text.append(more.as_str());
        text
    }

    /// Appends `range` without looking at the last range.
    fn append(&mut self, range: Range)
        requires
            range.is_valid(),
        ensures
            final(self)@ == old(self)@.push(range),
    {
        proof {
            use_type_invariant(&*self);
        }
        let mut ranges: Vec<Range> = Vec::new();
        core::mem::swap(&mut self.ranges, &mut ranges);
        ranges.push(range);
        core::mem::swap(&mut self.ranges, &mut ranges);
    }

    /// Moves the end of the last range forward to `end`, if it lies beyond.
    fn extend(&mut self, end: u64)
        requires
            old(self)@.len() > 0,
        ensures
            final(self)@ == extend_last(old(self)@, end),
    {
        proof {
            use_type_invariant(&*self);
        }
        let mut ranges: Vec<Range> = Vec::new();
        core::mem::swap(&mut self.ranges, &mut ranges);
        let last: usize = ranges.len() - 1;
        let prev = ranges[last];
        if prev.end < end {
            ranges.set(last, Range { begin: prev.begin, end });
        }
        assert(ranges@ =~= extend_last(old(self)@, end));
        core::mem::swap(&mut self.ranges, &mut ranges);
    }

    /// Joins `range` to the last range if it overlaps it, and pushes it
    /// otherwise.
    fn absorb(&mut self, range: Range)
        requires
            range.is_valid(),
        ensures
            final(self)@ == absorb(old(self)@, range),
    {
        let len: usize = self.ranges.len();
        if len > 0 && range.begin < self.ranges[len - 1].end {
            self.extend(range.end);
        } else {
            self.push(range);
        }
    }
}

} // verus!
