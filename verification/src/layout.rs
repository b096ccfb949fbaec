//! Tab-segment layout: the fixed 1-based decimal labels of the segments,
//! and the column spans they occupy in the rendered bar (one separator
//! column between adjacent segments).

use vstd::prelude::*;

verus! {

/// The character of a single decimal digit.
pub open spec fn digit_char(d: nat) -> char {
    if d == 0 {
        '0'
    } else if d == 1 {
        '1'
    } else if d == 2 {
        '2'
    } else if d == 3 {
        '3'
    } else if d == 4 {
        '4'
    } else if d == 5 {
        '5'
    } else if d == 6 {
        '6'
    } else if d == 7 {
        '7'
    } else if d == 8 {
        '8'
    } else {
        '9'
    }
}

/// The decimal rendering of `n`, most significant digit first.
pub open spec fn decimal_digits(n: nat) -> Seq<char>
    decreases n,
{
    if n < 10 {
        seq![digit_char(n)]
    } else {
        decimal_digits(n / 10).push(digit_char(n % 10))
    }
}

/// A decimal rendering is never empty.
pub proof fn lemma_decimal_digits_len(n: nat)
    ensures
        decimal_digits(n).len() >= 1,
{
}

/// The digits of a digit sequence read in reverse, least significant first
/// in the input, most significant first in the output.
pub open spec fn reversed_digit_chars(s: Seq<u8>) -> Seq<char> {
    Seq::new(s.len(), |k: int| digit_char(s[s.len() - 1 - k] as nat))
}

proof fn lemma_reversed_push(s: Seq<u8>, d: u8)
    ensures
        reversed_digit_chars(s.push(d)) =~= seq![digit_char(d as nat)] + reversed_digit_chars(s),
{
    let lhs = reversed_digit_chars(s.push(d));
    let rhs = seq![digit_char(d as nat)] + reversed_digit_chars(s);
    assert forall|k: int| 0 <= k < lhs.len() implies lhs[k] == rhs[k] by {
        if k == 0 {
            assert(s.push(d)[s.len() as int] == d);
        } else {
            assert(s.push(d)[s.len() - k] == s[s.len() - k]);
        }
    }
}

/// One-character string for a single decimal digit.
fn digit_str(d: u8) -> (r: &'static str)
    requires
        d < 10,
    ensures
        r@ == seq![digit_char(d as nat)],
{
    proof {
        reveal_strlit("0");
        reveal_strlit("1");
        reveal_strlit("2");
        reveal_strlit("3");
        reveal_strlit("4");
        reveal_strlit("5");
        reveal_strlit("6");
        reveal_strlit("7");
        reveal_strlit("8");
        reveal_strlit("9");
    }
    let r = match d {
        0 => "0",
        1 => "1",
        2 => "2",
        3 => "3",
        4 => "4",
        5 => "5",
        6 => "6",
        7 => "7",
        8 => "8",
        _ => "9",
    };
    proof {
        assert(r@ =~= seq![digit_char(d as nat)]);
    }
    r
}

/// Renders `n` in decimal.
pub fn decimal_label(n: usize) -> (s: String)
    ensures
        s@ == decimal_digits(n as nat),
{
    let mut digits: Vec<u8> = Vec::new();
    let mut m: usize = n;
    digits.push((m % 10) as u8);
    m = m / 10;
    proof {
        if m > 0 {
            assert(decimal_digits(n as nat) =~= decimal_digits(m as nat) + reversed_digit_chars(
                digits@,
            ));
        } else {
            assert(decimal_digits(n as nat) =~= reversed_digit_chars(digits@));
        }
    }
    while m > 0
        invariant
            forall|j: int| 0 <= j < digits@.len() ==> digits@[j] < 10,
            digits@.len() >= 1,
            m > 0 ==> decimal_digits(n as nat) == decimal_digits(m as nat) + reversed_digit_chars(
                digits@,
            ),
            m == 0 ==> decimal_digits(n as nat) == reversed_digit_chars(digits@),
        decreases m,
    {
        let ghost digits0 = digits@;
        let ghost m0 = m as nat;
        digits.push((m % 10) as u8);
        m = m / 10;
        proof {
            lemma_reversed_push(digits0, (m0 % 10) as u8);
            if m > 0 {
                assert(decimal_digits(m0) == decimal_digits(m as nat).push(
                    digit_char(m0 % 10),
                ));
                assert(decimal_digits(m as nat).push(digit_char(m0 % 10))
                    + reversed_digit_chars(digits0) =~= decimal_digits(m as nat)
                    + reversed_digit_chars(digits@));
            } else {
                assert(decimal_digits(m0) =~= seq![digit_char(m0)]);
                assert(m0 % 10 == m0);
                assert(seq![digit_char(m0)] + reversed_digit_chars(digits0)
                    =~= reversed_digit_chars(digits@));
            }
        }
    }
    let mut s = String::new();
    let mut i: usize = digits.len();
    while i > 0
        invariant
            i <= digits@.len(),
            forall|j: int| 0 <= j < digits@.len() ==> digits@[j] < 10,
            decimal_digits(n as nat) == reversed_digit_chars(digits@),
            s@ =~= reversed_digit_chars(digits@).take(digits@.len() - i),
        decreases i,
    {
        i = i - 1;
        let d: u8 = digits[i];
        s.append(digit_str(d));
        proof {
            let rev = reversed_digit_chars(digits@);
            assert(rev[digits@.len() - 1 - i] == digit_char(digits@[i as int] as nat));
            assert(rev.take(digits@.len() - i) =~= rev.take(digits@.len() - 1 - i).push(
                rev[digits@.len() - 1 - i],
            ));
        }
    }
    proof {
        assert(s@ =~= reversed_digit_chars(digits@));
    }
    s
}

/// The mathematical view of one tab segment: its 0-based tab index and the
/// characters of its label.
pub struct TabSegmentView {
    pub index: int,
    pub label: Seq<char>,
}

/// One positioned, labeled unit of the rendered tab bar. The label is the
/// 1-based decimal rendering of the tab index.
#[derive(Debug)]
pub struct TabSegment {
    pub index: usize,
    pub label: String,
}

impl View for TabSegment {
    type V = TabSegmentView;

    open spec fn view(&self) -> TabSegmentView {
        TabSegmentView { index: self.index as int, label: self.label@ }
    }
}

/// The view a segment for tab `i` must have.
pub open spec fn spec_segment(i: int) -> TabSegmentView {
    TabSegmentView { index: i, label: decimal_digits((i + 1) as nat) }
}

impl TabSegment {
    /// Builds the segment for tab `index`, labeled with the 1-based decimal
    /// rendering of the index.
    pub fn new(index: usize) -> (r: Self)
        requires
            index < usize::MAX,
        ensures
            r@ == spec_segment(index as int),
    {
        TabSegment { index, label: decimal_label(index + 1) }
    }

    /// The character length of the label, which is the width of the segment
    /// in the rendered bar.
    pub fn len(&self) -> (r: usize)
        ensures
            r == self@.label.len(),
    {
        self.label.as_str().unicode_len()
    }
}

/// The width of segment `i`: the digit count of its label.
pub open spec fn segment_len(i: int) -> int {
    decimal_digits((i + 1) as nat).len() as int
}

/// The column where segment `i` starts: every earlier segment occupies its
/// own width plus one separator column.
pub open spec fn segment_start(i: int) -> int
    decreases i,
{
    if i <= 0 {
        0
    } else {
        segment_start(i - 1) + segment_len(i - 1) + 1
    }
}

/// Whether column `col` falls inside the span of segment `i`.
pub open spec fn segment_hits(i: int, col: int) -> bool {
    segment_start(i) <= col < segment_start(i) + segment_len(i)
}

/// Segment spans are ordered: a segment ends strictly before a later one
/// starts (the separator column lies between them).
pub proof fn lemma_segment_start_ordered(i: int, j: int)
    requires
        0 <= i < j,
    ensures
        segment_start(i) + segment_len(i) < segment_start(j),
    decreases j,
{
    lemma_decimal_digits_len((j as nat));
    if j == i + 1 {
    } else {
        lemma_segment_start_ordered(i, j - 1);
        lemma_decimal_digits_len(((j - 1) + 1) as nat);
    }
}

/// Law: hit-testing is a partition. A column lies in the span of at most
/// one segment; the separator and fill columns lie in none.
pub proof fn lemma_hit_unique(i: int, j: int, col: int)
    requires
        0 <= i,
        0 <= j,
        segment_hits(i, col),
        segment_hits(j, col),
    ensures
        i == j,
{
    if i < j {
        lemma_segment_start_ordered(i, j);
    }
    if j < i {
        lemma_segment_start_ordered(j, i);
    }
}

} // verus!
