//! Character-level scanning: character classes, searching a window of a
//! text, trimming, and splitting a text into lines.

use vstd::prelude::*;

verus! {

/// Whether `c` has the Unicode property `White_Space`.
pub open spec fn is_whitespace(c: char) -> bool {
    let u = c as u32;
    (0x09 <= u && u <= 0x0D) || u == 0x20 || u == 0x85 || u == 0xA0 || u == 0x1680 || (0x2000 <= u
        && u <= 0x200A) || u == 0x2028 || u == 0x2029 || u == 0x202F || u == 0x205F || u == 0x3000
}

/// Decides `is_whitespace`.
pub fn char_is_whitespace(c: char) -> (r: bool)
    ensures
        r == is_whitespace(c),
{
    let u: u32 = c as u32;
    (0x09 <= u && u <= 0x0D) || u == 0x20 || u == 0x85 || u == 0xA0 || u == 0x1680 || (0x2000 <= u
        && u <= 0x200A) || u == 0x2028 || u == 0x2029 || u == 0x202F || u == 0x205F || u == 0x3000
}

/// A set of characters that a scan can look for.
#[derive(Clone, Copy, Debug)]
pub enum CharClass {
    /// The line feed alone.
    Newline,
    /// The colon alone.
    Colon,
    /// Every white-space character.
    Whitespace,
    /// Every character that is not white space.
    NonWhitespace,
}

impl CharClass {
    /// Whether `c` belongs to the class.
    pub open spec fn holds(self, c: char) -> bool {
        match self {
            CharClass::Newline => c == '\n',
            CharClass::Colon => c == ':',
            CharClass::Whitespace => is_whitespace(c),
            CharClass::NonWhitespace => !is_whitespace(c),
        }
    }

    /// Decides `holds`.
    pub fn contains(self, c: char) -> (r: bool)
        ensures
            r == self.holds(c),
    {
        match self {
            CharClass::Newline => c == '\n',
            CharClass::Colon => c == ':',
            CharClass::Whitespace => char_is_whitespace(c),
            CharClass::NonWhitespace => !char_is_whitespace(c),
        }
    }
}

/// The least index in `[from, to)` whose character belongs to `class`, or
/// `to` where there is none.
pub open spec fn find(s: Seq<char>, from: int, to: int, class: CharClass) -> int
    decreases to - from,
{
    if from >= to {
        to
    } else if class.holds(s[from]) {
        from
    } else {
        find(s, from + 1, to, class)
    }
}

/// One past the greatest index in `[from, to)` whose character is not white
/// space, or `from` where there is none.
pub open spec fn find_end(s: Seq<char>, from: int, to: int) -> int
    decreases to - from,
{
    if to <= from {
        from
    } else if !is_whitespace(s[to - 1]) {
        to
    } else {
        find_end(s, from, to - 1)
    }
}

/// `find` returns a position of the window, nothing before it belongs to
/// the class, and the character at it does unless it is the window's end.
pub proof fn lemma_find_bounds(s: Seq<char>, from: int, to: int, class: CharClass)
    requires
        from <= to,
    ensures
        from <= find(s, from, to, class) <= to,
        forall|i: int| from <= i < find(s, from, to, class) ==> !class.holds(#[trigger] s[i]),
        find(s, from, to, class) < to ==> class.holds(s[find(s, from, to, class)]),
    decreases to - from,
{
    if from < to && !class.holds(s[from]) {
        lemma_find_bounds(s, from + 1, to, class);
    }
}

/// A position with the properties of `lemma_find_bounds` is what `find`
/// returns.
pub proof fn lemma_find_unique(s: Seq<char>, from: int, to: int, class: CharClass, k: int)
    requires
        from <= k <= to,
        forall|i: int| from <= i < k ==> !class.holds(#[trigger] s[i]),
        k < to ==> class.holds(s[k]),
    ensures
        find(s, from, to, class) == k,
    decreases k - from,
{
    if from < k {
        lemma_find_unique(s, from + 1, to, class, k);
    }
}

/// `find_end` returns a position of the window, everything from it on is
/// white space, and the character before it is not unless it is the
/// window's start.
pub proof fn lemma_find_end_bounds(s: Seq<char>, from: int, to: int)
    requires
        from <= to,
    ensures
        from <= find_end(s, from, to) <= to,
        forall|i: int| find_end(s, from, to) <= i < to ==> is_whitespace(#[trigger] s[i]),
        from < find_end(s, from, to) ==> !is_whitespace(s[find_end(s, from, to) - 1]),
    decreases to - from,
{
    if from < to && is_whitespace(s[to - 1]) {
        lemma_find_end_bounds(s, from, to - 1);
    }
}

/// A position with the properties of `lemma_find_end_bounds` is what
/// `find_end` returns.
pub proof fn lemma_find_end_unique(s: Seq<char>, from: int, to: int, k: int)
    requires
        from <= k <= to,
        forall|i: int| k <= i < to ==> is_whitespace(#[trigger] s[i]),
        from < k ==> !is_whitespace(s[k - 1]),
    ensures
        find_end(s, from, to) == k,
    decreases to - k,
{
    if k < to {
        lemma_find_end_unique(s, from, to - 1, k);
    }
}

/// Searching a window of a subrange is searching the same window of the
/// whole text.
pub proof fn lemma_find_subrange(
    s: Seq<char>,
    lo: int,
    hi: int,
    from: int,
    to: int,
    class: CharClass,
)
    requires
        0 <= lo <= from <= to <= hi <= s.len(),
    ensures
        find(s.subrange(lo, hi), from - lo, to - lo, class) == find(s, from, to, class) - lo,
{
    let k = find(s, from, to, class);
    lemma_find_bounds(s, from, to, class);
    let t = s.subrange(lo, hi);
    assert forall|i: int| from - lo <= i < k - lo implies !class.holds(#[trigger] t[i]) by {
        assert(t[i] == s[i + lo]);
    }
    lemma_find_unique(t, from - lo, to - lo, class, k - lo);
}

/// `find_end` on a window of a subrange is `find_end` on the same window of
/// the whole text.
pub proof fn lemma_find_end_subrange(s: Seq<char>, lo: int, hi: int, from: int, to: int)
    requires
        0 <= lo <= from <= to <= hi <= s.len(),
    ensures
        find_end(s.subrange(lo, hi), from - lo, to - lo) == find_end(s, from, to) - lo,
{
    let k = find_end(s, from, to);
    lemma_find_end_bounds(s, from, to);
    let t = s.subrange(lo, hi);
    assert forall|i: int| k - lo <= i < to - lo implies is_whitespace(#[trigger] t[i]) by {
        assert(t[i] == s[i + lo]);
    }
    lemma_find_end_unique(t, from - lo, to - lo, k - lo);
}

/// Computes `find` on a window of `text`.
pub fn scan(text: &Vec<char>, from: usize, to: usize, class: CharClass) -> (r: usize)
    requires
        from <= to <= text.len(),
    ensures
        r == find(text@, from as int, to as int, class),
        from <= r <= to,
{
    let mut i: usize = from;
    while i < to && !class.contains(text[i])
        invariant
            from <= i <= to <= text.len(),
            find(text@, from as int, to as int, class) == find(text@, i as int, to as int, class),
        decreases to - i,
    {
        i += 1;
    }
    i
}

/// Computes `find_end` on a window of `text`.
pub fn scan_end(text: &Vec<char>, from: usize, to: usize) -> (r: usize)
    requires
        from <= to <= text.len(),
    ensures
        r == find_end(text@, from as int, to as int),
        from <= r <= to,
{
    let mut i: usize = to;
    while i > from && char_is_whitespace(text[i - 1])
        invariant
            from <= i <= to <= text.len(),
            find_end(text@, from as int, to as int) == find_end(text@, from as int, i as int),
        decreases i - from,
    {
        i -= 1;
    }
    i
}

/// `s` without the white space at its start and at its end.
pub open spec fn trim(s: Seq<char>) -> Seq<char> {
    let a = find(s, 0, s.len() as int, CharClass::NonWhitespace);
    let b = find_end(s, a, s.len() as int);
    s.subrange(a, b)
}

/// Trims the window `[lo, hi)` of `text`: the result is the window of what
/// is left.
pub fn trim_window(text: &Vec<char>, lo: usize, hi: usize) -> (r: (usize, usize))
    requires
        lo <= hi <= text.len(),
    ensures
        lo <= r.0 <= r.1 <= hi,
        text@.subrange(r.0 as int, r.1 as int) == trim(text@.subrange(lo as int, hi as int)),
{
    let a = scan(text, lo, hi, CharClass::NonWhitespace);
    let b = scan_end(text, a, hi);
    proof {
        let s = text@;
        let t = s.subrange(lo as int, hi as int);
        lemma_find_subrange(s, lo as int, hi as int, lo as int, hi as int, CharClass::NonWhitespace);
        lemma_find_end_subrange(s, lo as int, hi as int, a as int, hi as int);
        assert(t.subrange(a - lo, b - lo) =~= s.subrange(a as int, b as int));
    }
    (a, b)
}

/// `s` without one carriage return at its end, if it ends in one.
pub open spec fn strip_cr(s: Seq<char>) -> Seq<char> {
    if s.len() > 0 && s.last() == '\r' {
        s.drop_last()
    } else {
        s
    }
}

/// The first line of a text that is not empty: what stands before the first
/// line feed, without a carriage return just before it; the whole text
/// where it holds no line feed.
pub open spec fn first_line(s: Seq<char>) -> Seq<char> {
    let e = find(s, 0, s.len() as int, CharClass::Newline);
    if e < s.len() {
        strip_cr(s.subrange(0, e))
    } else {
        s
    }
}

/// What follows the first line and its line feed.
pub open spec fn after_first_line(s: Seq<char>) -> Seq<char> {
    let e = find(s, 0, s.len() as int, CharClass::Newline);
    if 0 <= e < s.len() {
        s.subrange(e + 1, s.len() as int)
    } else {
        Seq::empty()
    }
}

/// The lines of a text. A line ends at a line feed or at the end of the
/// text; a carriage return just before the line feed belongs to the line
/// ending. After the last line feed no empty line follows.
pub open spec fn lines(s: Seq<char>) -> Seq<Seq<char>>
    decreases s.len(),
{
    if s.len() == 0 {
        Seq::empty()
    } else {
        seq![first_line(s)] + lines(after_first_line(s))
    }
}

/// Reads the line that starts at `pos`: the result is the end of the line
/// and the start of the next one.
pub fn next_line(text: &Vec<char>, pos: usize) -> (r: (usize, usize))
    requires
        pos < text.len(),
    ensures
        pos <= r.0 <= r.1 <= text.len(),
        pos < r.1,
        text@.subrange(pos as int, r.0 as int) == first_line(text@.skip(pos as int)),
        text@.skip(r.1 as int) == after_first_line(text@.skip(pos as int)),
{
    let n = text.len();
    let e = scan(text, pos, n, CharClass::Newline);
    proof {
        let s = text@;
        lemma_find_subrange(s, pos as int, n as int, pos as int, n as int, CharClass::Newline);
        assert(s.skip(pos as int) =~= s.subrange(pos as int, n as int));
    }
    if e < n {
        let end = if e > pos && text[e - 1] == '\r' {
            e - 1
        } else {
            e
        };
        proof {
            let s = text@;
            let t = s.skip(pos as int);
            assert(t.subrange(0, e - pos) =~= s.subrange(pos as int, e as int));
            assert(strip_cr(s.subrange(pos as int, e as int)) =~= s.subrange(
                pos as int,
                end as int,
            ));
            assert(t.subrange(e - pos + 1, t.len() as int) =~= s.skip(e + 1));
        }
        (end, e + 1)
    } else {
        proof {
            assert(text@.skip(n as int) =~= Seq::<char>::empty());
        }
        (n, n)
    }
}

} // verus!
