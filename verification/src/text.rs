//! How addresses and ranges are written out.

use crate::range::{subtract_spec, Range};
use vstd::prelude::*;
use vstd::string::StringExecFns;

verus! {

/// The lower-case hexadecimal digit for a value below sixteen.
pub open spec fn hex_digit(d: int) -> char {
    if d == 0 {
        '0'
    } else if d == 1 {
        '1'
    } else if d == 2 {
        '2'
    } else if d == 3 {
        '3'
    } else if d == 4 {
        '4'
    } else if d == 5 {
        '5'
    } else if d == 6 {
        '6'
    } else if d == 7 {
        '7'
    } else if d == 8 {
        '8'
    } else if d == 9 {
        '9'
    } else if d == 10 {
        'a'
    } else if d == 11 {
        'b'
    } else if d == 12 {
        'c'
    } else if d == 13 {
        'd'
    } else if d == 14 {
        'e'
    } else {
        'f'
    }
}

/// `n` in hexadecimal: lower case, no prefix, no leading zeros.
pub open spec fn hex(n: nat) -> Seq<char>
    decreases n,
{
    if n < 16 {
        seq![hex_digit(n as int)]
    } else {
        hex(n / 16).push(hex_digit((n % 16) as int))
    }
}

/// One line for one range: the prefix, the begin, two dots, the end, and a
/// line feed.
pub open spec fn range_line(prefix: Seq<char>, r: Range) -> Seq<char> {
    prefix + hex(r.begin as nat) + seq!['.', '.'] + hex(r.end as nat) + seq!['\n']
}

/// One line for each range of `s`, in order.
pub open spec fn range_lines(prefix: Seq<char>, s: Seq<Range>) -> Seq<char>
    decreases s.len(),
{
    if s.len() == 0 {
        Seq::empty()
    } else {
        range_lines(prefix, s.drop_last()) + range_line(prefix, s.last())
    }
}

/// The text that compares two lists: a line behind `- ` for each range
/// of what only the first covers, then a line behind `+ ` for each range of
/// what only the second covers.
pub open spec fn comparison(a: Seq<Range>, b: Seq<Range>) -> Seq<char> {
    range_lines(seq!['-', ' '], subtract_spec(a, b)) + range_lines(
        seq!['+', ' '],
        subtract_spec(b, a),
    )
}

/// One line for a pair of overlapping neighbours: the prefix, the first
/// range, a blank, the second range, and a line feed.
pub open spec fn overlap_line(prefix: Seq<char>, pair: (Range, Range)) -> Seq<char> {
    prefix + hex(pair.0.begin as nat) + seq!['.', '.'] + hex(pair.0.end as nat) + seq![' '] + hex(
        pair.1.begin as nat,
    ) + seq!['.', '.'] + hex(pair.1.end as nat) + seq!['\n']
}

/// One line for each pair of `pairs`, in order.
pub open spec fn overlap_lines(prefix: Seq<char>, pairs: Seq<(Range, Range)>) -> Seq<char>
    decreases pairs.len(),
{
    if pairs.len() == 0 {
        Seq::empty()
    } else {
        overlap_lines(prefix, pairs.drop_last()) + overlap_line(prefix, pairs.last())
    }
}

/// The digits of a number, least significant first, as the text that
/// starts with the most significant one.
spec fn digits_text(digits: Seq<u64>) -> Seq<char>
    decreases digits.len(),
{
    if digits.len() == 0 {
        Seq::empty()
    } else {
        seq![hex_digit(digits.last() as int)] + digits_text(digits.drop_last())
    }
}

fn digit_text(d: u64) -> (text: &'static str)
    requires
        d < 16,
    ensures
        text@ == seq![hex_digit(d as int)],
{
    proof {
        reveal_strlit("0");
        reveal_strlit("1");
        reveal_strlit("2");
        reveal_strlit("3");
        reveal_strlit("4");
        reveal_strlit("5");
        reveal_strlit("6");
        reveal_strlit("7");
        reveal_strlit("8");
        reveal_strlit("9");
        reveal_strlit("a");
        reveal_strlit("b");
        reveal_strlit("c");
        reveal_strlit("d");
        reveal_strlit("e");
        reveal_strlit("f");
    }
    let text = if d == 0 {
        "0"
    } else if d == 1 {
        "1"
    } else if d == 2 {
        "2"
    } else if d == 3 {
        "3"
    } else if d == 4 {
        "4"
    } else if d == 5 {
        "5"
    } else if d == 6 {
        "6"
    } else if d == 7 {
        "7"
    } else if d == 8 {
        "8"
    } else if d == 9 {
        "9"
    } else if d == 10 {
        "a"
    } else if d == 11 {
        "b"
    } else if d == 12 {
        "c"
    } else if d == 13 {
        "d"
    } else if d == 14 {
        "e"
    } else {
        "f"
    };
    assert(text@ =~= seq![hex_digit(d as int)]);
    text
}

/// Writes `n` in hexadecimal.
pub fn to_hex(n: u64) -> (text: String)
    ensures
        text@ == hex(n as nat),
{
    let mut digits: Vec<u64> = Vec::new();
    let mut rest: u64 = n;
    assert(hex(n as nat) + digits_text(digits@) =~= hex(n as nat));
    while rest >= 16
        invariant
            forall|k: int| 0 <= k < digits@.len() ==> digits@[k] < 16,
            hex(n as nat) == hex(rest as nat) + digits_text(digits@),
        decreases rest,
    {
        let ghost before = digits@;
        digits.push(rest % 16);
        assert(digits@.drop_last() =~= before);
        assert(hex(rest as nat) + digits_text(before) =~= hex((rest / 16) as nat) + digits_text(
            digits@,
        ));
        rest = rest / 16;
    }
    let mut text = String::from_str(digit_text(rest));
    let mut k: usize = digits.len();
    assert(digits@.take(k as int) =~= digits@);
    while k > 0
        invariant
            k <= digits@.len(),
            forall|k: int| 0 <= k < digits@.len() ==> digits@[k] < 16,
            text@ + digits_text(digits@.take(k as int)) == hex(n as nat),
        decreases k,
    {
        let ghost before = text@;
        k -= 1;
        text.append(digit_text(digits[k]));
        assert(digits@.take(k + 1).drop_last() =~= digits@.take(k as int));
        assert(before + digits_text(digits@.take(k + 1)) =~= text@ + digits_text(
            digits@.take(k as int),
        ));
    }
    assert(text@ + digits_text(digits@.take(0)) =~= text@);
    text
}

/// Writes one line for each of `ranges`, each behind `prefix`.
pub fn write_ranges(prefix: &str, ranges: &Vec<Range>) -> (text: String)
    ensures
        text@ == range_lines(prefix@, ranges@),
{
    let mut text = String::new();
    let mut i: usize = 0;
    proof {
        reveal_strlit("..");
        reveal_strlit("\n");
    }
    while i < ranges.len()
        invariant
            i <= ranges@.len(),
            text@ == range_lines(prefix@, ranges@.take(i as int)),
            ".."@ == seq!['.', '.'],
            "\n"@ == seq!['\n'],
        decreases ranges@.len() - i,
    {
        let r = ranges[i];
        let begin = to_hex(r.begin);
        let end = to_hex(r.end);
        let ghost before = text@;
        text.append(prefix);
        text.append(begin.as_str());
        text.append("..");
        text.append(end.as_str());
        text.append("\n");
        assert(ranges@.take(i + 1).drop_last() =~= ranges@.take(i as int));
        assert(text@ =~= before + range_line(prefix@, r));
        i += 1;
    }
    assert(ranges@.take(i as int) =~= ranges@);
    text
}

/// Writes one line for each of `pairs`, each behind `prefix`.
pub fn write_overlaps(prefix: &str, pairs: &Vec<(Range, Range)>) -> (text: String)
    ensures
        text@ == overlap_lines(prefix@, pairs@),
{
    let mut text = String::new();
    let mut i: usize = 0;
    proof {
        reveal_strlit("..");
        reveal_strlit(" ");
        reveal_strlit("\n");
    }
    while i < pairs.len()
        invariant
            i <= pairs@.len(),
            text@ == overlap_lines(prefix@, pairs@.take(i as int)),
            ".."@ == seq!['.', '.'],
            " "@ == seq![' '],
            "\n"@ == seq!['\n'],
        decreases pairs@.len() - i,
    {
        let pair = pairs[i];
        let first_begin = to_hex(pair.0.begin);
        let first_end = to_hex(pair.0.end);
        let second_begin = to_hex(pair.1.begin);
        let second_end = to_hex(pair.1.end);
        let ghost before = text@;
        text.append(prefix);
        text.append(first_begin.as_str());
        text.append("..");
        text.append(first_end.as_str());
        text.append(" ");
        text.append(second_begin.as_str());
        text.append("..");
        text.append(second_end.as_str());
        text.append("\n");
        assert(pairs@.take(i + 1).drop_last() =~= pairs@.take(i as int));
        assert(text@ =~= before + overlap_line(prefix@, pair));
        i += 1;
    }
    assert(pairs@.take(i as int) =~= pairs@);
    text
}

} // verus!
