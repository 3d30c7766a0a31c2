//! Positions in text: finding a character, skipping and trimming spaces,
//! and the CRLF- or LF-terminated lines of a request.

use vstd::prelude::*;

verus! {

/// Spaces that separate request-line words and surround header keys and values.
pub open spec fn is_space(c: char) -> bool {
    c == ' ' || c == '\t'
}

/// The first index in `[i, end)` that holds `c`, or `end`.
pub open spec fn find_char(s: Seq<char>, c: char, i: int, end: int) -> int
    decreases end - i,
{
    if i >= end {
        end
    } else if s[i] == c {
        i
    } else {
        find_char(s, c, i + 1, end)
    }
}

/// The first index in `[i, end)` that is not a space, or `end`.
pub open spec fn skip_spaces(s: Seq<char>, i: int, end: int) -> int
    decreases end - i,
{
    if i >= end {
        end
    } else if !is_space(s[i]) {
        i
    } else {
        skip_spaces(s, i + 1, end)
    }
}

/// The first index in `[i, end)` that is a space, or `end`.
pub open spec fn find_space(s: Seq<char>, i: int, end: int) -> int
    decreases end - i,
{
    if i >= end {
        end
    } else if is_space(s[i]) {
        i
    } else {
        find_space(s, i + 1, end)
    }
}

/// The end of `[start, end)` once the spaces at its end are dropped.
pub open spec fn trim_end_at(s: Seq<char>, start: int, end: int) -> int
    decreases end - start,
{
    if end <= start {
        start
    } else if is_space(s[end - 1]) {
        trim_end_at(s, start, end - 1)
    } else {
        end
    }
}

/// The text of `[i, end)` without the spaces at either end.
pub open spec fn trimmed(s: Seq<char>, i: int, end: int) -> Seq<char> {
    let a = skip_spaces(s, i, end);
    s.subrange(a, trim_end_at(s, a, end))
}

/// The index of the line feed that ends the line starting at `i`, or the length.
pub open spec fn line_end(s: Seq<char>, i: int) -> int {
    find_char(s, '\n', i, s.len() as int)
}

/// The end of the text of the line starting at `i`: a carriage return just
/// before its line feed is not part of it.
pub open spec fn text_end(s: Seq<char>, i: int) -> int {
    let e = line_end(s, i);
    if e < s.len() && e > i && s[e - 1] == '\r' {
        e - 1
    } else {
        e
    }
}

/// Where the line after the one starting at `i` starts; the length when
/// there is none.
pub open spec fn next_line(s: Seq<char>, i: int) -> int {
    if line_end(s, i) < s.len() {
        line_end(s, i) + 1
    } else {
        s.len() as int
    }
}

/// A line starts at `i`: `i` is below the length, and the next line starts
/// after it. Written out so that definitions that walk the lines plainly
/// move forward; `lemma_has_line` shows that it holds of every index below
/// the length.
pub open spec fn has_line(s: Seq<char>, i: int) -> bool {
    0 <= i < s.len() && i < next_line(s, i) <= s.len()
}

pub proof fn lemma_find_char_bounds(s: Seq<char>, c: char, i: int, end: int)
    requires
        i <= end,
    ensures
        i <= find_char(s, c, i, end) <= end,
    decreases end - i,
{
    if i < end && s[i] != c {
        lemma_find_char_bounds(s, c, i + 1, end);
    }
}

/// Every index below the length starts a line.
pub proof fn lemma_has_line(s: Seq<char>, i: int)
    requires
        0 <= i < s.len(),
    ensures
        has_line(s, i),
{
    lemma_find_char_bounds(s, '\n', i, s.len() as int);
}

pub(crate) fn find_char_in(s: &Vec<char>, c: char, i: usize, end: usize) -> (r: usize)
    requires
        i <= end <= s@.len(),
    ensures
        r == find_char(s@, c, i as int, end as int),
        i <= r <= end,
{
    let mut j = i;
    while j < end
        invariant
            i <= j <= end,
            end <= s@.len(),
            find_char(s@, c, j as int, end as int) == find_char(s@, c, i as int, end as int),
        decreases end - j,
    {
        if s[j] == c {
            return j;
        }
        j = j + 1;
    }
    j
}

fn is_space_char(c: char) -> (r: bool)
    ensures
        r == is_space(c),
{
    c == ' ' || c == '\t'
}

pub(crate) fn skip_spaces_in(s: &Vec<char>, i: usize, end: usize) -> (r: usize)
    requires
        i <= end <= s@.len(),
    ensures
        r == skip_spaces(s@, i as int, end as int),
        i <= r <= end,
{
    let mut j = i;
    while j < end
        invariant
            i <= j <= end,
            end <= s@.len(),
            skip_spaces(s@, j as int, end as int) == skip_spaces(s@, i as int, end as int),
        decreases end - j,
    {
        if !is_space_char(s[j]) {
            return j;
        }
        j = j + 1;
    }
    j
}

pub(crate) fn find_space_in(s: &Vec<char>, i: usize, end: usize) -> (r: usize)
    requires
        i <= end <= s@.len(),
    ensures
        r == find_space(s@, i as int, end as int),
        i <= r <= end,
{
    let mut j = i;
    while j < end
        invariant
            i <= j <= end,
            end <= s@.len(),
            find_space(s@, j as int, end as int) == find_space(s@, i as int, end as int),
        decreases end - j,
    {
        if is_space_char(s[j]) {
            return j;
        }
        j = j + 1;
    }
    j
}

pub(crate) fn trim_end_in(s: &Vec<char>, start: usize, end: usize) -> (r: usize)
    requires
        start <= end <= s@.len(),
    ensures
        r == trim_end_at(s@, start as int, end as int),
        start <= r <= end,
{
    let mut e = end;
    while e > start && is_space_char(s[e - 1])
        invariant
            start <= e <= end,
            end <= s@.len(),
            trim_end_at(s@, start as int, e as int) == trim_end_at(s@, start as int, end as int),
        decreases e,
    {
        e = e - 1;
    }
    e
}

/// Where the line after the one at `i` starts, and the end of the text of
/// the line at `i`.
pub(crate) fn line_bounds(s: &Vec<char>, i: usize) -> (r: (usize, usize))
    requires
        i < s@.len(),
    ensures
        r.0 == next_line(s@, i as int),
        r.1 == text_end(s@, i as int),
        has_line(s@, i as int),
        i <= r.1 <= r.0 <= s@.len(),
        i < r.0,
{
    let e = find_char_in(s, '\n', i, s.len());
    let next = if e < s.len() { e + 1 } else { e };
    if e < s.len() && e > i && s[e - 1] == '\r' {
        (next, e - 1)
    } else {
        (next, e)
    }
}

/// The characters of `data`, one by one.
pub(crate) fn chars_of(data: &str) -> (r: Vec<char>)
    ensures
        r@ == data@,
{
    let n = data.unicode_len();
    let mut out: Vec<char> = Vec::with_capacity(n);
    let mut i: usize = 0;
    while i < n
        invariant
            i <= n,
            n == data@.len(),
            out@ =~= data@.subrange(0, i as int),
        decreases n - i,
    {
        out.push(data.get_char(i));
        i = i + 1;
    }
    assert(out@ =~= data@);
    out
}

/// Whether two strings hold the same characters.
pub(crate) fn same_text(a: &str, b: &str) -> (r: bool)
    ensures
        r == (a@ == b@),
{
    a.to_owned() == b.to_owned()
}

} // verus!
