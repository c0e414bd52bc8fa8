//! What holds of normal forms and differences, for every list.

use crate::range::{
    absorb, adjacent_overlaps, all_valid, coalesce, covers, difference, in_padding,
    is_normalized, is_separated, normalize, padding, push_outcome, push_spec, range_order,
    sorted_by_begin, subtract_spec, Pushed, Range,
};
use vstd::prelude::*;
use vstd::relations::{sorted_by, total_ordering};
use vstd::seq_lib::lemma_sorted_unique;

verus! {

/// Pushing keeps a sorted list sorted unless it appends a range that begins
/// before the last one, and never sorts an unsorted list.
pub proof fn lemma_push_keeps_order(s: Seq<Range>, r: Range)
    ensures
        sorted_by_begin(push_spec(s, r)) <==> sorted_by_begin(s) && (push_outcome(s, r)
            == Pushed::Appended && s.len() > 0 ==> s.last().begin <= r.begin),
        all_valid(s) ==> all_valid(push_spec(s, r)),
{
    let t = push_spec(s, r);
    match push_outcome(s, r) {
        Pushed::Invalid | Pushed::Empty => {},
        Pushed::Merged => {
            assert forall|i: int| 0 <= i < s.len() implies (#[trigger] t[i]).begin
                == s[i].begin by {}
            if sorted_by_begin(t) {
                assert forall|i: int, j: int| 0 <= i < j < s.len() implies s[i].begin
                    <= s[j].begin by {
                    assert(t[i].begin <= t[j].begin);
                }
            }
        },
        Pushed::Appended => {
            if sorted_by_begin(t) {
                assert forall|i: int, j: int| 0 <= i < j < s.len() implies s[i].begin
                    <= s[j].begin by {
                    assert(t[i].begin <= t[j].begin);
                }
                if s.len() > 0 {
                    assert(t[s.len() - 1].begin <= t[s.len() as int].begin);
                }
            }
            if sorted_by_begin(s) && (s.len() > 0 ==> s.last().begin <= r.begin) {
                assert forall|i: int, j: int| 0 <= i < j < t.len() implies t[i].begin
                    <= t[j].begin by {
                    if j == s.len() {
                        if i < s.len() - 1 {
                            assert(s[i].begin <= s[s.len() - 1].begin);
                        }
                    }
                }
            }
        },
    }
}

/// Sorting by begin, then by end, is a total order on ranges.
pub proof fn lemma_range_order_total()
    ensures
        total_ordering(range_order()),
{
    let leq = range_order();
    assert forall|x: Range, y: Range| #[trigger] leq(x, y) && #[trigger] leq(y, x) implies x
        == y by {}
}

/// Sorting moves ranges and makes none: a sorted list of valid ranges
/// holds valid ranges, and covers the addresses that the list covered.
pub proof fn lemma_sort_keeps_ranges(s: Seq<Range>)
    ensures
        sorted_by(s.sort_by(range_order()), range_order()),
        s.sort_by(range_order()).to_multiset() == s.to_multiset(),
        s.sort_by(range_order()).len() == s.len(),
        all_valid(s) ==> all_valid(s.sort_by(range_order())),
        forall|x: int| covers(s, x) <==> covers(s.sort_by(range_order()), x),
{
    broadcast use vstd::seq_lib::group_to_multiset_ensures;

    let t = s.sort_by(range_order());
    lemma_range_order_total();
    s.lemma_sort_by_ensures(range_order());
    assert forall|i: int| 0 <= i < t.len() implies s.contains(#[trigger] t[i]) by {
        assert(t.to_multiset().count(t[i]) > 0);
        assert(s.to_multiset().count(t[i]) > 0);
    }
    assert forall|i: int| 0 <= i < s.len() implies t.contains(#[trigger] s[i]) by {
        assert(s.to_multiset().count(s[i]) > 0);
        assert(t.to_multiset().count(s[i]) > 0);
    }
    if all_valid(s) {
        assert forall|i: int| 0 <= i < t.len() implies (#[trigger] t[i]).is_valid() by {
            assert(s.contains(t[i]));
        }
    }
    assert forall|x: int| covers(s, x) <==> covers(t, x) by {
        if covers(s, x) {
            let i = choose|i: int| 0 <= i < s.len() && (#[trigger] s[i]).contains(x);
            assert(t.contains(s[i]));
            let j = choose|j: int| 0 <= j < t.len() && t[j] == s[i];
            assert(t[j].contains(x));
        }
        if covers(t, x) {
            let i = choose|i: int| 0 <= i < t.len() && (#[trigger] t[i]).contains(x);
            assert(s.contains(t[i]));
            let j = choose|j: int| 0 <= j < s.len() && s[j] == t[i];
            assert(s[j].contains(x));
        }
    }
    s.to_multiset_ensures();
    t.to_multiset_ensures();
}

/// Coalescing a sorted list of valid ranges gives a normalized list, whose
/// last range begins no later and ends no earlier than the last range that
/// went in.
pub proof fn lemma_coalesce_normalizes(s: Seq<Range>)
    requires
        all_valid(s),
        sorted_by(s, range_order()),
    ensures
        is_normalized(coalesce(s)),
        s.len() > 0 ==> coalesce(s).len() > 0 && coalesce(s).last().begin <= s.last().begin
            && s.last().end <= coalesce(s).last().end,
    decreases s.len(),
{
    if s.len() > 0 {
        let p = s.drop_last();
        let r = s.last();
        lemma_coalesce_normalizes(p);
        let c = coalesce(p);
        let t = absorb(c, r);
        assert(r.is_valid());
        if c.len() > 0 {
            assert(range_order()(s[p.len() - 1], s[s.len() - 1]));
        }
        assert forall|i: int, j: int| 0 <= i < j < t.len() implies t[i].end + padding(
            t[j].begin,
        ) < t[j].begin by {
            if j < c.len() {
                assert(c[i].end + padding(c[j].begin) < c[j].begin);
            } else {
                if i < c.len() - 1 {
                    assert(c[i].end + padding(c[c.len() - 1].begin) < c[c.len()
                        - 1].begin);
                    assert(c[c.len() - 1].is_valid());
                }
            }
        }
    }
}

/// The normal form of a list of valid ranges is normalized.
pub proof fn lemma_normalize_is_normalized(s: Seq<Range>)
    requires
        all_valid(s),
    ensures
        is_normalized(normalize(s)),
{
    lemma_sort_keeps_ranges(s);
    lemma_coalesce_normalizes(s.sort_by(range_order()));
}

/// A normalized list is separated.
pub proof fn lemma_normalized_is_separated(s: Seq<Range>)
    requires
        is_normalized(s),
    ensures
        is_separated(s),
{
    assert forall|i: int, j: int| 0 <= i < j < s.len() implies s[i].end <= s[j].begin by {
        assert(s[i].end + padding(s[j].begin) < s[j].begin);
    }
}

/// A normalized list is sorted by begin, and every range of it is valid.
pub proof fn lemma_normalized_is_sorted(s: Seq<Range>)
    requires
        is_normalized(s),
    ensures
        sorted_by_begin(s),
        all_valid(s),
        forall|i: int, j: int| 0 <= i < j < s.len() ==> s[i].begin < s[j].begin,
{
    assert forall|i: int, j: int| 0 <= i < j < s.len() implies s[i].begin < s[j].begin by {
        assert(s[i].is_valid());
        assert(s[i].end + padding(s[j].begin) < s[j].begin);
    }
}

/// A separated list is sorted, and sorting leaves it as it is.
proof fn lemma_separated_is_sorted(s: Seq<Range>)
    requires
        is_separated(s),
    ensures
        sorted_by(s, range_order()),
        s.sort_by(range_order()) == s,
{
    lemma_range_order_total();
    lemma_sort_keeps_ranges(s);
    assert forall|i: int, j: int| 0 <= i < j < s.len() implies #[trigger] range_order()(
        s[i],
        s[j],
    ) by {
        assert(s[i].is_valid());
        assert(s[i].end <= s[j].begin);
    }
    lemma_sorted_unique(s.sort_by(range_order()), s, range_order());
}

/// Coalescing leaves a normalized list as it is.
pub proof fn lemma_coalesce_fixes_normalized(s: Seq<Range>)
    requires
        is_normalized(s),
    ensures
        coalesce(s) == s,
    decreases s.len(),
{
    if s.len() > 0 {
        let p = s.drop_last();
        lemma_coalesce_fixes_normalized(p);
        if p.len() > 0 {
            assert(s[p.len() - 1].end + padding(s[s.len() - 1].begin) < s[s.len()
                - 1].begin);
        }
        assert(s.last().is_valid());
        assert(push_spec(p, s.last()) =~= s);
    } else {
        assert(coalesce(s) =~= s);
    }
}

/// A normalized list is its own normal form.
pub proof fn lemma_normalize_fixes_normalized(s: Seq<Range>)
    requires
        is_normalized(s),
    ensures
        normalize(s) == s,
{
    lemma_normalized_is_separated(s);
    lemma_separated_is_sorted(s);
    lemma_coalesce_fixes_normalized(s);
}

/// Normalizing twice gives what normalizing once gives.
pub proof fn lemma_normalize_idempotent(s: Seq<Range>)
    requires
        all_valid(s),
    ensures
        normalize(normalize(s)) == normalize(s),
{
    lemma_normalize_is_normalized(s);
    lemma_normalize_fixes_normalized(normalize(s));
}

/// Normalizing loses no address: what the list covered, its normal form
/// covers.
pub proof fn lemma_normalize_keeps_addresses(s: Seq<Range>, x: int)
    requires
        all_valid(s),
        covers(s, x),
    ensures
        covers(normalize(s), x),
{
    lemma_sort_keeps_ranges(s);
    lemma_coalesce_keeps_addresses(s.sort_by(range_order()), x);
}

/// Normalizing adds only padding: what the normal form covers, the list
/// covered, or it lies in the padding before a range of the list.
pub proof fn lemma_normalize_adds_only_padding(s: Seq<Range>, x: int)
    requires
        all_valid(s),
        covers(normalize(s), x),
    ensures
        covers(s, x) || in_padding(s, x),
{
    let t = s.sort_by(range_order());
    lemma_sort_keeps_ranges(s);
    lemma_coalesce_adds_only_padding(t, x);
    if in_padding(t, x) {
        let i = choose|i: int|
            0 <= i < t.len() && (#[trigger] t[i]).begin - padding(t[i].begin) <= x < t[i].begin;
        s.lemma_sort_by_ensures(range_order());
        assert(t.contains(t[i]));
        assert(s.contains(t[i]));
        let j = choose|j: int| 0 <= j < s.len() && s[j] == t[i];
        assert(s[j].begin - padding(s[j].begin) <= x < s[j].begin);
    }
}

/// Coalescing a sorted list adds only padding.
proof fn lemma_coalesce_adds_only_padding(s: Seq<Range>, x: int)
    requires
        all_valid(s),
        sorted_by(s, range_order()),
        covers(coalesce(s), x),
    ensures
        covers(s, x) || in_padding(s, x),
    decreases s.len(),
{
    if s.len() > 0 {
        let p = s.drop_last();
        let c = coalesce(p);
        let r = s.last();
        let t = absorb(c, r);
        let last = s.len() - 1;
        assert(r.is_valid());
        let k = choose|k: int| 0 <= k < t.len() && (#[trigger] t[k]).contains(x);
        if k < c.len() && c[k].contains(x) {
            lemma_coalesce_adds_only_padding(p, x);
            if covers(p, x) {
                let i = choose|i: int| 0 <= i < p.len() && (#[trigger] p[i]).contains(x);
                assert(s[i].contains(x));
            } else {
                let i = choose|i: int|
                    0 <= i < p.len() && (#[trigger] p[i]).begin - padding(p[i].begin) <= x
                        < p[i].begin;
                assert(s[i].begin - padding(s[i].begin) <= x < s[i].begin);
            }
        } else if r.contains(x) {
            assert(s[last].contains(x));
        } else {
            assert(s[last].begin - padding(s[last].begin) <= x < s[last].begin);
        }
    }
}

/// Coalescing a sorted list loses no address.
pub proof fn lemma_coalesce_keeps_addresses(s: Seq<Range>, x: int)
    requires
        all_valid(s),
        sorted_by(s, range_order()),
        covers(s, x),
    ensures
        covers(coalesce(s), x),
    decreases s.len(),
{
    let i = choose|i: int| 0 <= i < s.len() && (#[trigger] s[i]).contains(x);
    let p = s.drop_last();
    let c = coalesce(p);
    let r = s.last();
    let t = absorb(c, r);
    lemma_coalesce_normalizes(p);
    assert(r.is_valid());
    if i == s.len() - 1 {
        if p.len() > 0 {
            assert(range_order()(s[p.len() - 1], s[s.len() - 1]));
        }
        assert(t[t.len() - 1].contains(x));
    } else {
        assert(p[i].contains(x));
        lemma_coalesce_keeps_addresses(p, x);
        let k = choose|k: int| 0 <= k < c.len() && (#[trigger] c[k]).contains(x);
        assert(t[k].contains(x));
    }
}

/// No two neighbours of a separated list overlap.
pub proof fn lemma_separated_has_no_overlaps(s: Seq<Range>)
    requires
        is_separated(s),
    ensures
        adjacent_overlaps(s) == Seq::<(Range, Range)>::empty(),
    decreases s.len(),
{
    if s.len() >= 2 {
        let p = s.drop_last();
        assert forall|i: int, j: int| 0 <= i < j < p.len() implies p[i].end <= p[j].begin by {
            assert(s[i].end <= s[j].begin);
        }
        assert forall|i: int| 0 <= i < p.len() implies (#[trigger] p[i]).is_valid() by {
            assert(s[i].is_valid());
        }
        lemma_separated_has_no_overlaps(p);
        assert(s[s.len() - 2].end <= s[s.len() - 1].begin);
    }
}

/// A list covers what its first range or the rest of it covers, and in a
/// separated list the rest lies at or beyond the end of the first range.
proof fn lemma_covers_first(s: Seq<Range>, x: int)
    requires
        s.len() > 0,
    ensures
        covers(s, x) <==> s[0].contains(x) || covers(s.drop_first(), x),
        is_separated(s) ==> is_separated(s.drop_first()),
        is_separated(s) && covers(s.drop_first(), x) ==> s[0].end <= x,
        is_separated(s) && covers(s, x) ==> s[0].begin <= x,
{
    let t = s.drop_first();
    if covers(s, x) {
        let i = choose|i: int| 0 <= i < s.len() && (#[trigger] s[i]).contains(x);
        if i > 0 {
            assert(t[i - 1].contains(x));
        }
    }
    if covers(t, x) {
        let i = choose|i: int| 0 <= i < t.len() && (#[trigger] t[i]).contains(x);
        assert(s[i + 1].contains(x));
        if is_separated(s) {
            assert(s[0].end <= s[i + 1].begin);
        }
    }
    if is_separated(s) {
        assert forall|i: int| 0 <= i < t.len() implies (#[trigger] t[i]).is_valid() by {
            assert(s[i + 1].is_valid());
        }
        assert forall|i: int, j: int| 0 <= i < j < t.len() implies t[i].end <= t[j].begin by {
            assert(s[i + 1].end <= s[j + 1].begin);
        }
        assert(s[0].is_valid());
    }
}

/// A list that starts with `r` and goes on with `s` covers what `r` holds
/// or `s` covers; it is separated if `s` is and `r` is valid and ends no
/// later than `s` begins.
proof fn lemma_covers_prepend(r: Range, s: Seq<Range>, x: int)
    ensures
        covers(seq![r] + s, x) <==> r.contains(x) || covers(s, x),
        (seq![r] + s).drop_first() == s,
        (seq![r] + s)[0] == r,
        is_separated(s) && r.is_valid() && (s.len() > 0 ==> r.end <= s[0].begin) ==> is_separated(
            seq![r] + s,
        ),
{
    let t = seq![r] + s;
    assert(t.drop_first() =~= s);
    lemma_covers_first(t, x);
    if is_separated(s) && r.is_valid() && (s.len() > 0 ==> r.end <= s[0].begin) {
        assert forall|i: int| 0 <= i < t.len() implies (#[trigger] t[i]).is_valid() by {
            if i > 0 {
                assert(s[i - 1].is_valid());
            }
        }
        assert forall|i: int, j: int| 0 <= i < j < t.len() implies t[i].end <= t[j].begin by {
            if i == 0 {
                if j > 1 {
                    assert(s[0].end <= s[j - 1].begin);
                    assert(s[0].is_valid());
                }
            } else {
                assert(s[i - 1].end <= s[j - 1].begin);
            }
        }
    }
}

/// The difference of two separated lists is separated, and begins no
/// earlier than the first list does.
pub proof fn lemma_difference_is_separated(a: Seq<Range>, b: Seq<Range>)
    requires
        is_separated(a),
        is_separated(b),
    ensures
        is_separated(difference(a, b)),
        difference(a, b).len() > 0 ==> a.len() > 0 && a[0].begin <= difference(a, b)[0].begin,
    decreases a.len() + b.len(),
{
    if a.len() == 0 || b.len() == 0 {
    } else {
        let w = a[0];
        let o = b[0];
        lemma_covers_first(a, 0);
        lemma_covers_first(b, 0);
        assert(w.is_valid() && o.is_valid());
        if o.end <= w.begin {
            lemma_difference_is_separated(a, b.drop_first());
        } else if w.end <= o.begin {
            let d = difference(a.drop_first(), b);
            lemma_difference_is_separated(a.drop_first(), b);
            if a.len() > 1 {
                assert(a[0].end <= a[1].begin);
            }
            lemma_covers_prepend(w, d, 0);
        } else {
            let head = Range { begin: w.begin, end: o.begin };
            if o.end < w.end {
                let tail = Range { begin: o.end, end: w.end };
                let a2 = seq![tail] + a.drop_first();
                if a.len() > 1 {
                    assert(a[0].end <= a[1].begin);
                }
                lemma_covers_prepend(tail, a.drop_first(), 0);
                lemma_difference_is_separated(a2, b.drop_first());
                let d = difference(a2, b.drop_first());
                if w.begin < o.begin {
                    lemma_covers_prepend(head, d, 0);
                } else {
                    assert(Seq::<Range>::empty() + d =~= d);
                }
            } else {
                let d = difference(a.drop_first(), b);
                lemma_difference_is_separated(a.drop_first(), b);
                if a.len() > 1 {
                    assert(a[0].end <= a[1].begin);
                }
                if w.begin < o.begin {
                    lemma_covers_prepend(head, d, 0);
                } else {
                    assert(Seq::<Range>::empty() + d =~= d);
                }
            }
        }
    }
}

/// The difference of two separated lists covers exactly the addresses that
/// the first covers and the second does not.
pub proof fn lemma_difference_covers(a: Seq<Range>, b: Seq<Range>, x: int)
    requires
        is_separated(a),
        is_separated(b),
    ensures
        covers(difference(a, b), x) <==> covers(a, x) && !covers(b, x),
    decreases a.len() + b.len(),
{
    if a.len() == 0 {
    } else if b.len() == 0 {
    } else {
        let w = a[0];
        let o = b[0];
        lemma_covers_first(a, x);
        lemma_covers_first(b, x);
        assert(w.is_valid() && o.is_valid());
        if o.end <= w.begin {
            lemma_difference_covers(a, b.drop_first(), x);
        } else if w.end <= o.begin {
            let d = difference(a.drop_first(), b);
            lemma_difference_covers(a.drop_first(), b, x);
            lemma_covers_prepend(w, d, x);
        } else {
            let head = Range { begin: w.begin, end: o.begin };
            if o.end < w.end {
                let tail = Range { begin: o.end, end: w.end };
                let a2 = seq![tail] + a.drop_first();
                if a.len() > 1 {
                    assert(a[0].end <= a[1].begin);
                }
                lemma_covers_prepend(tail, a.drop_first(), x);
                lemma_difference_covers(a2, b.drop_first(), x);
                let d = difference(a2, b.drop_first());
                if w.begin < o.begin {
                    lemma_covers_prepend(head, d, x);
                } else {
                    assert(Seq::<Range>::empty() + d =~= d);
                }
            } else {
                let d = difference(a.drop_first(), b);
                lemma_difference_covers(a.drop_first(), b, x);
                if w.begin < o.begin {
                    lemma_covers_prepend(head, d, x);
                } else {
                    assert(Seq::<Range>::empty() + d =~= d);
                }
            }
        }
    }
}

/// What `subtract` gives is normalized.
pub proof fn lemma_subtract_is_normalized(a: Seq<Range>, b: Seq<Range>)
    requires
        all_valid(a),
        all_valid(b),
    ensures
        is_normalized(subtract_spec(a, b)),
{
    lemma_normalize_is_normalized(a);
    lemma_normalize_is_normalized(b);
    lemma_normalized_is_separated(normalize(a));
    lemma_normalized_is_separated(normalize(b));
    lemma_difference_is_separated(normalize(a), normalize(b));
    lemma_normalize_is_normalized(difference(normalize(a), normalize(b)));
}

/// A list minus itself is the empty list.
pub proof fn lemma_subtract_self(s: Seq<Range>)
    requires
        all_valid(s),
    ensures
        subtract_spec(s, s) == Seq::<Range>::empty(),
{
    let n = normalize(s);
    lemma_normalize_is_normalized(s);
    lemma_normalized_is_separated(n);
    let d = difference(n, n);
    lemma_difference_is_separated(n, n);
    if d.len() > 0 {
        let x = d[0].begin as int;
        assert(d[0].is_valid());
        assert(d[0].contains(x));
        lemma_difference_covers(n, n, x);
    }
    assert(d =~= Seq::<Range>::empty());
    lemma_normalize_fixes_normalized(d);
}

/// A list minus the empty list is the normal form of the list.
pub proof fn lemma_subtract_nothing(s: Seq<Range>)
    requires
        all_valid(s),
    ensures
        subtract_spec(s, Seq::<Range>::empty()) == normalize(s),
        is_normalized(s) ==> subtract_spec(s, Seq::<Range>::empty()) == s,
{
    let n = normalize(s);
    let e = Seq::<Range>::empty();
    lemma_normalize_is_normalized(s);
    lemma_normalize_fixes_normalized(e);
    assert(difference(n, e) =~= n);
    lemma_normalize_fixes_normalized(n);
    if is_normalized(s) {
        lemma_normalize_fixes_normalized(s);
    }
}

/// `subtract` loses no address of the difference: what the first
/// normalized list covers and the second does not, the result covers.
pub proof fn lemma_subtract_keeps_addresses(a: Seq<Range>, b: Seq<Range>, x: int)
    requires
        is_normalized(a),
        is_normalized(b),
        covers(a, x),
        !covers(b, x),
    ensures
        covers(subtract_spec(a, b), x),
{
    lemma_normalize_fixes_normalized(a);
    lemma_normalize_fixes_normalized(b);
    lemma_normalized_is_separated(a);
    lemma_normalized_is_separated(b);
    lemma_difference_is_separated(a, b);
    lemma_difference_covers(a, b, x);
    lemma_normalize_keeps_addresses(difference(a, b), x);
}

/// `subtract` is the difference of sets of addresses: on normalized lists
/// whose remaining pieces are not joined across alignment padding, the
/// result covers an address exactly when the first list covers it and the
/// second does not.
pub proof fn lemma_subtract_is_set_difference(a: Seq<Range>, b: Seq<Range>)
    requires
        is_normalized(a),
        is_normalized(b),
        is_normalized(difference(a, b)),
    ensures
        subtract_spec(a, b) == difference(a, b),
        forall|x: int| covers(subtract_spec(a, b), x) <==> covers(a, x) && !covers(b, x),
{
    lemma_normalize_fixes_normalized(a);
    lemma_normalize_fixes_normalized(b);
    lemma_normalize_fixes_normalized(difference(a, b));
    lemma_normalized_is_separated(a);
    lemma_normalized_is_separated(b);
    assert forall|x: int| covers(subtract_spec(a, b), x) <==> covers(a, x) && !covers(b, x) by {
        lemma_difference_covers(a, b, x);
    }
}

/// Absorbing a valid range loses no address.
proof fn lemma_absorb_keeps_addresses(c: Seq<Range>, r: Range, x: int)
    requires
        r.is_valid(),
        covers(c, x),
    ensures
        covers(absorb(c, r), x),
{
    let k = choose|k: int| 0 <= k < c.len() && (#[trigger] c[k]).contains(x);
    assert(absorb(c, r)[k].contains(x));
}

/// Coalescing a sorted list covers the gap between two neighbours of which
/// the second follows the first closely.
proof fn lemma_coalesce_bridges(s: Seq<Range>, j: int, x: int)
    requires
        all_valid(s),
        sorted_by(s, range_order()),
        0 < j < s.len(),
        s[j - 1].end <= x < s[j].begin,
        s[j].begin <= s[j - 1].end + padding(s[j].begin),
    ensures
        covers(coalesce(s), x),
    decreases s.len(),
{
    let p = s.drop_last();
    let c = coalesce(p);
    let r = s.last();
    assert(r.is_valid());
    if j == s.len() - 1 {
        lemma_coalesce_normalizes(p);
        assert(p.last() == s[j - 1]);
        assert(s[j - 1].is_valid());
        let t = absorb(c, r);
        assert(t[t.len() - 1].contains(x));
    } else {
        assert(p[j - 1] == s[j - 1] && p[j] == s[j]);
        lemma_coalesce_bridges(p, j, x);
        lemma_absorb_keeps_addresses(c, r, x);
    }
}

/// Where no two ranges of the first list touch, no two ranges of the
/// difference touch.
proof fn lemma_difference_keeps_gaps(a: Seq<Range>, b: Seq<Range>)
    requires
        is_separated(a),
        is_separated(b),
        has_gaps(a),
    ensures
        has_gaps(difference(a, b)),
    decreases a.len() + b.len(),
{
    if a.len() == 0 || b.len() == 0 {
    } else {
        let w = a[0];
        let o = b[0];
        lemma_covers_first(a, 0);
        lemma_covers_first(b, 0);
        assert(w.is_valid() && o.is_valid());
        let rest = a.drop_first();
        assert forall|i: int, j: int| 0 <= i < j < rest.len() implies rest[i].end
            < rest[j].begin by {
            assert(a[i + 1].end < a[j + 1].begin);
        }
        if a.len() > 1 {
            assert(a[0].end < a[1].begin);
            assert(rest[0] == a[1]);
        }
        if o.end <= w.begin {
            lemma_difference_keeps_gaps(a, b.drop_first());
        } else if w.end <= o.begin {
            let d = difference(rest, b);
            lemma_difference_keeps_gaps(rest, b);
            lemma_difference_is_separated(rest, b);
            lemma_gap_before(w, d);
        } else {
            let head = Range { begin: w.begin, end: o.begin };
            if o.end < w.end {
                let tail = Range { begin: o.end, end: w.end };
                let a2 = seq![tail] + rest;
                lemma_covers_prepend(tail, rest, 0);
                lemma_gap_before(tail, rest);
                lemma_difference_keeps_gaps(a2, b.drop_first());
                lemma_difference_is_separated(a2, b.drop_first());
                let d = difference(a2, b.drop_first());
                if w.begin < o.begin {
                    lemma_gap_before(head, d);
                } else {
                    assert(Seq::<Range>::empty() + d =~= d);
                }
            } else {
                let d = difference(rest, b);
                lemma_difference_keeps_gaps(rest, b);
                lemma_difference_is_separated(rest, b);
                if w.begin < o.begin {
                    lemma_gap_before(head, d);
                } else {
                    assert(Seq::<Range>::empty() + d =~= d);
                }
            }
        }
    }
}

/// No range of the list ends where a later one begins, or beyond.
spec fn has_gaps(s: Seq<Range>) -> bool {
    forall|i: int, j: int| 0 <= i < j < s.len() ==> s[i].end < s[j].begin
}

/// A range that ends before a separated list without touching ranges
/// begins makes, put before it, a list without touching ranges.
proof fn lemma_gap_before(r: Range, d: Seq<Range>)
    requires
        all_valid(d),
        has_gaps(d),
        d.len() > 0 ==> r.end < d[0].begin,
    ensures
        has_gaps(seq![r] + d),
{
    let t = seq![r] + d;
    assert forall|i: int, j: int| 0 <= i < j < t.len() implies t[i].end < t[j].begin by {
        if i == 0 {
            if j > 1 {
                assert(d[0].end < d[j - 1].begin);
                assert(d[0].is_valid());
            }
        } else {
            assert(d[i - 1].end < d[j - 1].begin);
        }
    }
}

/// Where the pieces that are left of a normalized list are not normalized,
/// `subtract` joins two of them across alignment padding, and so covers an
/// address that is not in the difference of the sets: the address `x`.
pub proof fn lemma_subtract_bridges_padding(a: Seq<Range>, b: Seq<Range>) -> (x: int)
    requires
        is_normalized(a),
        is_normalized(b),
        !is_normalized(difference(a, b)),
    ensures
        covers(subtract_spec(a, b), x),
        !(covers(a, x) && !covers(b, x)),
{
    let d = difference(a, b);
    lemma_normalize_fixes_normalized(a);
    lemma_normalize_fixes_normalized(b);
    lemma_normalized_is_separated(a);
    lemma_normalized_is_separated(b);
    lemma_difference_is_separated(a, b);
    assert(has_gaps(a)) by {
        assert forall|i: int, j: int| 0 <= i < j < a.len() implies a[i].end < a[j].begin by {
            assert(a[i].end + padding(a[j].begin) < a[j].begin);
        }
    }
    lemma_difference_keeps_gaps(a, b);
    lemma_separated_is_sorted(d);
    let (i, j) = choose|i: int, j: int|
        0 <= i < j < d.len() && !(d[i].end + padding(d[j].begin) < d[j].begin);
    if i < j - 1 {
        assert(d[i].end <= d[j - 1].begin);
        assert(d[j - 1].is_valid());
    }
    let x = d[j - 1].end as int;
    assert(d[j - 1].end < d[j].begin);
    lemma_coalesce_bridges(d, j, x);
    assert forall|k: int| 0 <= k < d.len() implies !(#[trigger] d[k]).contains(x) by {
        if k < j - 1 {
            assert(d[k].end <= d[j - 1].begin);
            assert(d[j - 1].is_valid());
        } else if k > j {
            assert(d[j].end <= d[k].begin);
            assert(d[j].is_valid());
        }
    }
    lemma_difference_covers(a, b, x);
    x
}

} // verus!
