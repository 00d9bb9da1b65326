//! Scanning a text char by char for white space, commas and digits.

use vstd::prelude::*;

verus! {

/// What a scan of a text stops at.
#[derive(Clone, Copy, Debug, PartialEq, Eq, Structural)]
pub enum Mark {
    /// A char that is white space.
    Space,
    /// A char that is not white space.
    Word,
    /// A comma.
    Comma,
    /// A char that is not a digit.
    NoDigit,
}

/// The chars with Unicode's property `White_Space`.
pub open spec fn is_space(c: char) -> bool {
    let n = c as u32;
    ||| 0x09 <= n <= 0x0d
    ||| n == 0x20
    ||| n == 0x85
    ||| n == 0xa0
    ||| n == 0x1680
    ||| 0x2000 <= n <= 0x200a
    ||| n == 0x2028
    ||| n == 0x2029
    ||| n == 0x202f
    ||| n == 0x205f
    ||| n == 0x3000
}

/// The ten digits `0` to `9`.
pub open spec fn is_digit(c: char) -> bool {
    0x30 <= c as u32 <= 0x39
}

/// Whether a scan for `mark` stops at `c`.
pub open spec fn stops(mark: Mark, c: char) -> bool {
    match mark {
        Mark::Space => is_space(c),
        Mark::Word => !is_space(c),
        Mark::Comma => c == ',',
        Mark::NoDigit => !is_digit(c),
    }
}

/// The first place at or after `from` where a scan for `mark` stops, or the
/// length of the text if it stops nowhere.
pub open spec fn scan(s: Seq<char>, from: int, mark: Mark) -> int
    decreases s.len() - from,
{
    if from < 0 || from >= s.len() {
        s.len() as int
    } else if stops(mark, s[from]) {
        from
    } else {
        scan(s, from + 1, mark)
    }
}

/// A scan from within the text ends at or after its start and within the
/// text or at its end; it passes no char at which it stops; and where it
/// ends within the text, it stops.
pub proof fn lemma_scan(s: Seq<char>, from: int, mark: Mark)
    requires
        0 <= from <= s.len(),
    ensures
        from <= scan(s, from, mark) <= s.len(),
        forall|i: int| from <= i < scan(s, from, mark) ==> !stops(mark, #[trigger] s[i]),
        scan(s, from, mark) < s.len() ==> stops(mark, s[scan(s, from, mark)]),
    decreases s.len() - from,
{
    if from < s.len() && !stops(mark, s[from]) {
        lemma_scan(s, from + 1, mark);
    }
}

/// A place with the three properties of a scan's end is the scan's end.
pub proof fn lemma_scan_unique(s: Seq<char>, from: int, mark: Mark, end: int)
    requires
        0 <= from <= end <= s.len(),
        forall|i: int| from <= i < end ==> !stops(mark, #[trigger] s[i]),
        end < s.len() ==> stops(mark, s[end]),
    ensures
        scan(s, from, mark) == end,
    decreases end - from,
{
    if from < end {
        lemma_scan_unique(s, from + 1, mark, end);
    }
}

/// Tests a char for white space.
pub fn is_whitespace(c: char) -> (r: bool)
    ensures
        r == is_space(c),
{
    let n: u32 = c as u32;
    (0x09 <= n && n <= 0x0d) || n == 0x20 || n == 0x85 || n == 0xa0 || n == 0x1680 || (0x2000 <= n
        && n <= 0x200a) || n == 0x2028 || n == 0x2029 || n == 0x202f || n == 0x205f || n == 0x3000
}

/// Tests a char for a digit.
pub fn is_ascii_digit(c: char) -> (r: bool)
    ensures
        r == is_digit(c),
{
    let n: u32 = c as u32;
    0x30 <= n && n <= 0x39
}

fn stops_at(mark: Mark, c: char) -> (r: bool)
    ensures
        r == stops(mark, c),
{
    match mark {
        Mark::Space => is_whitespace(c),
        Mark::Word => !is_whitespace(c),
        Mark::Comma => c == ',',
        Mark::NoDigit => !is_ascii_digit(c),
    }
}

/// The chars of a text, one by one.
pub fn chars_of(text: &str) -> (chars: Vec<char>)
    ensures
        chars@ == text@,
{
    let mut chars: Vec<char> = Vec::new();
    for c in it: text.chars()
        invariant
            it.seq() == text@,
            chars@ == it.seq().take(it.index() as int),
    {
        chars.push(c);
    }
    chars
}

/// Finds the first place at or after `from` where a scan for `mark` stops.
pub fn find(chars: &Vec<char>, from: usize, mark: Mark) -> (end: usize)
    requires
        from <= chars@.len(),
    ensures
        end == scan(chars@, from as int, mark),
        from <= end <= chars@.len(),
{
    let mut i: usize = from;
    while i < chars.len() && !stops_at(mark, chars[i])
        invariant
            from <= i <= chars@.len(),
            scan(chars@, i as int, mark) == scan(chars@, from as int, mark),
        decreases chars@.len() - i,
    {
        i = i + 1;
    }
    i
}

} // verus!
