//! Cutting a line of text into the texts of its coordinates, and putting
//! such texts together into a line.
//!
//! A line reads `x1,y1 x2,y2`: two points parted by white space, each of them
//! two numbers parted by a comma. Which number a text stands for is not
//! decided here.

use crate::error::Error;
use crate::numeral::{is_number, is_numeral, lemma_numeral_is_plain};
use crate::text::{chars_of, find, is_space, lemma_scan, lemma_scan_unique, scan, Mark};
use vstd::prelude::*;
use vstd::string::{StrSliceExecFns, StringExecFns};

verus! {

/// The texts of the two coordinates of a point.
#[derive(Clone, Copy, Debug)]
pub struct PointText<'a> {
    pub x: &'a str,
    pub y: &'a str,
}

/// The texts of the four coordinates of a line.
#[derive(Clone, Copy, Debug)]
pub struct LineText<'a> {
    pub p1: PointText<'a>,
    pub p2: PointText<'a>,
}

impl<'a> View for PointText<'a> {
    type V = (Seq<char>, Seq<char>);

    open spec fn view(&self) -> (Seq<char>, Seq<char>) {
        (self.x@, self.y@)
    }
}

impl<'a> View for LineText<'a> {
    type V = ((Seq<char>, Seq<char>), (Seq<char>, Seq<char>));

    open spec fn view(&self) -> ((Seq<char>, Seq<char>), (Seq<char>, Seq<char>)) {
        (self.p1@, self.p2@)
    }
}

/// The words of the text from `from` on: the longest runs of chars that are
/// not white space, in their order.
pub open spec fn words_from(s: Seq<char>, from: int) -> Seq<Seq<char>>
    decreases s.len() - from,
    via words_from_decreases
{
    let start = scan(s, from, Mark::Word);
    if from < 0 || start >= s.len() {
        Seq::empty()
    } else {
        let end = scan(s, start, Mark::Space);
        seq![s.subrange(start, end)] + words_from(s, end)
    }
}

#[via_fn]
proof fn words_from_decreases(s: Seq<char>, from: int) {
    let start = scan(s, from, Mark::Word);
    if !(from < 0 || start >= s.len()) {
        lemma_scan(s, from, Mark::Word);
        lemma_scan(s, start + 1, Mark::Space);
    }
}

/// The words of the text.
pub open spec fn words(s: Seq<char>) -> Seq<Seq<char>> {
    words_from(s, 0)
}

/// The fields of the text from `from` on: what stands before, between and
/// after its commas, in that order. A text without a comma is one field.
pub open spec fn fields_from(s: Seq<char>, from: int) -> Seq<Seq<char>>
    decreases s.len() - from,
    via fields_from_decreases
{
    let end = scan(s, from, Mark::Comma);
    if from < 0 || from > s.len() {
        Seq::empty()
    } else if end >= s.len() {
        seq![s.subrange(from, s.len() as int)]
    } else {
        seq![s.subrange(from, end)] + fields_from(s, end + 1)
    }
}

#[via_fn]
proof fn fields_from_decreases(s: Seq<char>, from: int) {
    if !(from < 0 || from > s.len()) {
        lemma_scan(s, from, Mark::Comma);
    }
}

/// The fields of the text.
pub open spec fn fields(s: Seq<char>) -> Seq<Seq<char>> {
    fields_from(s, 0)
}

/// The text holds nothing but white space.
pub open spec fn blank(s: Seq<char>) -> bool {
    forall|i: int| 0 <= i < s.len() ==> is_space(#[trigger] s[i])
}

/// The two coordinates of a point's text: its first two fields, which must
/// be there and be numbers.
pub open spec fn point_text(s: Seq<char>) -> Result<(Seq<char>, Seq<char>), Error> {
    let f = fields(s);
    if f.len() < 2 {
        Err(Error::MissingCoordinate)
    } else if !is_numeral(f[0]) || !is_numeral(f[1]) {
        Err(Error::InvalidNumber)
    } else {
        Ok((f[0], f[1]))
    }
}

/// The four coordinates of a line's text: those of its first two words,
/// which must be there and be points. Of two faulty points the first is
/// reported.
pub open spec fn line_text(s: Seq<char>) -> Result<
    ((Seq<char>, Seq<char>), (Seq<char>, Seq<char>)),
    Error,
> {
    let w = words(s);
    if w.len() < 2 {
        Err(Error::MissingPoint)
    } else {
        match point_text(w[0]) {
            Err(e) => Err(e),
            Ok(p1) => match point_text(w[1]) {
                Err(e) => Err(e),
                Ok(p2) => Ok((p1, p2)),
            },
        }
    }
}

/// The text of a point: its two coordinates with a comma between them.
pub open spec fn point_line(x: Seq<char>, y: Seq<char>) -> Seq<char> {
    x + seq![','] + y
}

/// The text of a line: its two points with a blank between them.
pub open spec fn line_line(p1: (Seq<char>, Seq<char>), p2: (Seq<char>, Seq<char>)) -> Seq<char> {
    point_line(p1.0, p1.1) + seq![' '] + point_line(p2.0, p2.1)
}

/// A text is blank exactly when it has no words.
pub proof fn lemma_blank_has_no_words(s: Seq<char>)
    ensures
        blank(s) <==> words(s).len() == 0,
{
    lemma_scan(s, 0, Mark::Word);
}

/// A point that is written from two numbers is cut into the same two.
pub proof fn lemma_point_round_trip(x: Seq<char>, y: Seq<char>)
    requires
        is_numeral(x),
        is_numeral(y),
    ensures
        point_text(point_line(x, y)) == Ok::<(Seq<char>, Seq<char>), Error>((x, y)),
{
    lemma_numeral_is_plain(x);
    lemma_numeral_is_plain(y);
    let s = point_line(x, y);
    let comma = x.len() as int;
    lemma_scan_unique(s, 0, Mark::Comma, comma);
    lemma_scan_unique(s, comma + 1, Mark::Comma, s.len() as int);
    reveal_with_fuel(fields_from, 3);
    assert(s.subrange(0, comma) =~= x);
    assert(s.subrange(comma + 1, s.len() as int) =~= y);
}

/// A line that is written from four numbers is cut into the same four.
pub proof fn lemma_line_round_trip(p1: (Seq<char>, Seq<char>), p2: (Seq<char>, Seq<char>))
    requires
        is_numeral(p1.0),
        is_numeral(p1.1),
        is_numeral(p2.0),
        is_numeral(p2.1),
    ensures
        line_text(line_line(p1, p2)) == Ok::<
            ((Seq<char>, Seq<char>), (Seq<char>, Seq<char>)),
            Error,
        >((p1, p2)),
{
    lemma_numeral_is_plain(p1.0);
    lemma_numeral_is_plain(p1.1);
    lemma_numeral_is_plain(p2.0);
    lemma_numeral_is_plain(p2.1);
    let first = point_line(p1.0, p1.1);
    let second = point_line(p2.0, p2.1);
    let s = line_line(p1, p2);
    let gap = first.len() as int;
    assert(forall|i: int| 0 <= i < first.len() ==> !is_space(#[trigger] first[i]));
    assert(forall|i: int| 0 <= i < second.len() ==> !is_space(#[trigger] second[i]));
    assert(forall|i: int| 0 <= i < gap ==> s[i] == first[i]);
    assert(forall|i: int| gap < i < s.len() ==> s[i] == second[i - gap - 1]);
    lemma_scan_unique(s, 0, Mark::Word, 0);
    lemma_scan_unique(s, 0, Mark::Space, gap);
    lemma_scan_unique(s, gap, Mark::Word, gap + 1);
    lemma_scan_unique(s, gap + 1, Mark::Space, s.len() as int);
    reveal_with_fuel(words_from, 3);
    assert(s.subrange(0, gap) =~= first);
    assert(s.subrange(gap + 1, s.len() as int) =~= second);
    lemma_point_round_trip(p1.0, p1.1);
    lemma_point_round_trip(p2.0, p2.1);
}

/// Tells whether the text holds nothing but white space.
pub fn is_blank(input: &str) -> (r: bool)
    ensures
        r == blank(input@),
{
    let chars = chars_of(input);
    let start = find(&chars, 0, Mark::Word);
    proof {
        lemma_scan(chars@, 0, Mark::Word);
    }
    start >= chars.len()
}

/// Cuts the text of a point at its commas and gives its first two fields.
/// A text without a comma is refused, and so is one whose first or second
/// field is not a number.
pub fn point_from_input<'a>(input: &'a str) -> (r: Result<PointText<'a>, Error>)
    ensures
        match r {
            Ok(t) => point_text(input@) == Ok::<(Seq<char>, Seq<char>), Error>(t@),
            Err(e) => point_text(input@) == Err::<(Seq<char>, Seq<char>), Error>(e),
        },
{
    let chars = chars_of(input);
    let first = find(&chars, 0, Mark::Comma);
    proof {
        reveal_with_fuel(fields_from, 3);
    }
    if first >= chars.len() {
        Err(Error::MissingCoordinate)
    } else {
        let second = find(&chars, first + 1, Mark::Comma);
        let x = input.substring_char(0, first);
        let y = input.substring_char(first + 1, second);
        if is_number(x) && is_number(y) {
            Ok(PointText { x, y })
        } else {
            Err(Error::InvalidNumber)
        }
    }
}

/// Cuts the text of a line at its white space, and its first two words at
/// their commas. A line of fewer than two words is refused, and so is one
/// whose first or second word is not a point.
pub fn line_from_input<'a>(input: &'a str) -> (r: Result<LineText<'a>, Error>)
    ensures
        match r {
            Ok(t) => line_text(input@) == Ok::<
                ((Seq<char>, Seq<char>), (Seq<char>, Seq<char>)),
                Error,
            >(t@),
            Err(e) => line_text(input@) == Err::<
                ((Seq<char>, Seq<char>), (Seq<char>, Seq<char>)),
                Error,
            >(e),
        },
{
    let chars = chars_of(input);
    let n = chars.len();
    proof {
        reveal_with_fuel(words_from, 3);
    }
    let start1 = find(&chars, 0, Mark::Word);
    if start1 >= n {
        return Err(Error::MissingPoint);
    }
    let end1 = find(&chars, start1, Mark::Space);
    let start2 = find(&chars, end1, Mark::Word);
    if start2 >= n {
        return Err(Error::MissingPoint);
    }
    let end2 = find(&chars, start2, Mark::Space);
    let word1 = input.substring_char(start1, end1);
    let word2 = input.substring_char(start2, end2);
    match point_from_input(word1) {
        Err(e) => Err(e),
        Ok(p1) => match point_from_input(word2) {
            Err(e) => Err(e),
            Ok(p2) => Ok(LineText { p1, p2 }),
        },
    }
}

/// Writes a point: `x,y`.
pub fn format_point(x: &str, y: &str) -> (text: String)
    ensures
        text@ == point_line(x@, y@),
{
    let mut text = String::from_str(x);
    text.append(",");
    text.append(y);
    proof {
        reveal_strlit(",");
        assert(","@ =~= seq![',']);
    }
    text
}

/// Writes a line: `x1,y1 x2,y2`.
pub fn format_line(line: &LineText) -> (text: String)
    ensures
        text@ == line_line(line.p1@, line.p2@),
{
    let mut text = format_point(line.p1.x, line.p1.y);
    let second = format_point(line.p2.x, line.p2.y);
    text.append(" ");
    text.append(second.as_str());
    proof {
        reveal_strlit(" ");
        assert(" "@ =~= seq![' ']);
    }
    text
}

} // verus!
