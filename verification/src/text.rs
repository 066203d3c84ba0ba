//! The textual model: substring containment and line splitting.

use vstd::prelude::*;

verus! {

/// `pat` occurs in `text` as a contiguous run starting at position `i`.
pub open spec fn is_match_at(text: Seq<char>, pat: Seq<char>, i: int) -> bool {
    &&& 0 <= i
    &&& i + pat.len() <= text.len()
    &&& text.subrange(i, i + pat.len()) == pat
}

/// `pat` occurs somewhere in `text` as a contiguous run of characters.
/// The empty pattern occurs in every text (at position 0).
pub open spec fn contains_seq(text: Seq<char>, pat: Seq<char>) -> bool {
    exists|i: int| is_match_at(text, pat, i)
}

/// Whether `pat` matches `text` at character position `i`.
fn matches_at(text: &str, pat: &str, i: usize) -> (r: bool)
    requires
        i + pat@.len() <= text@.len(),
    ensures
        r == is_match_at(text@, pat@, i as int),
{
    let n = text.unicode_len();
    let m = pat.unicode_len();
    let mut j: usize = 0;
    while j < m
        invariant
            j <= m,
            n == text@.len(),
            m == pat@.len(),
            i + m <= n,
            forall|k: int| 0 <= k < j ==> text@[i + k] == pat@[k],
        decreases m - j,
    {
        if text.get_char(i + j) != pat.get_char(j) {
            assert(!is_match_at(text@, pat@, i as int)) by {
                assert(text@.subrange(i as int, i + m) != pat@) by {
                    assert(text@.subrange(i as int, i + m)[j as int] == text@[i + j]);
                }
            }
            return false;
        }
        j += 1;
    }
    assert(text@.subrange(i as int, i + m) =~= pat@);
    true
}

/// Whether `text` contains `pat` as a contiguous substring,
/// by checking each candidate position in turn.
pub fn contains_substring(text: &str, pat: &str) -> (r: bool)
    ensures
        r == contains_seq(text@, pat@),
{
    let n = text.unicode_len();
    let m = pat.unicode_len();
    if m > n {
        return false;
    }
    if m == 0 {
        assert(text@.subrange(0, 0) =~= pat@);
        assert(is_match_at(text@, pat@, 0));
        return true;
    }
    let mut i: usize = 0;
    while i <= n - m
        invariant
            0 < m <= n,
            n == text@.len(),
            m == pat@.len(),
            i <= n - m + 1,
            forall|k: int| 0 <= k < i ==> !is_match_at(text@, pat@, k),
        decreases n - m + 1 - i,
    {
        if matches_at(text, pat, i) {
            return true;
        }
        i += 1;
    }
    false
}

/// The position of the first newline character at or after `from`,
/// or `text.len()` when no newline follows.
pub open spec fn line_end(text: Seq<char>, from: int) -> int
    decreases text.len() - from when from <= text.len()
{
    if from >= text.len() {
        text.len() as int
    } else if text[from] == '\n' {
        from
    } else {
        line_end(text, from + 1)
    }
}

/// `line_end` stays within the text, lands on a newline unless it reaches
/// the end, and skips no newline on the way.
pub proof fn lemma_line_end_props(text: Seq<char>, from: int)
    requires
        0 <= from <= text.len(),
    ensures
        from <= line_end(text, from) <= text.len(),
        line_end(text, from) < text.len() ==> text[line_end(text, from)] == '\n',
        forall|j: int| from <= j < line_end(text, from) ==> text[j] != '\n',
    decreases text.len() - from,
{
    if from < text.len() && text[from] != '\n' {
        lemma_line_end_props(text, from + 1);
    }
}

/// A scan that finds no newline before `e`, and a newline (or the end of the
/// text) at `e`, has found exactly `line_end`.
proof fn lemma_line_end_agrees(text: Seq<char>, from: int, e: int)
    requires
        0 <= from <= e <= text.len(),
        forall|j: int| from <= j < e ==> text[j] != '\n',
        e < text.len() ==> text[e] == '\n',
    ensures
        line_end(text, from) == e,
    decreases e - from,
{
    if from < e {
        lemma_line_end_agrees(text, from + 1, e);
    }
}

/// The text of the line that starts at position `from`: everything up to the
/// next newline, with one carriage return stripped when it directly precedes
/// that newline.  A carriage return at the very end of the text is kept.
pub open spec fn line_body(text: Seq<char>, from: int) -> Seq<char> {
    let e = line_end(text, from);
    if e < text.len() && from < e && text[e - 1] == '\r' {
        text.subrange(from, e - 1)
    } else {
        text.subrange(from, e)
    }
}

/// The lines of `text` whose first line starts at position `from`.
/// A trailing newline opens no further line, so a text that ends with a
/// newline yields the same lines as one without it.
pub open spec fn lines_from(text: Seq<char>, from: int) -> Seq<Seq<char>>
    decreases text.len() - from when 0 <= from <= text.len() via lines_from_decreases
{
    if from >= text.len() {
        Seq::empty()
    } else {
        let e = line_end(text, from);
        seq![line_body(text, from)] + if e < text.len() {
            lines_from(text, e + 1)
        } else {
            Seq::empty()
        }
    }
}

#[via_fn]
proof fn lines_from_decreases(text: Seq<char>, from: int) {
    if 0 <= from < text.len() {
        lemma_line_end_props(text, from);
    }
}

/// The lines of `text`, split at newline characters, with the terminators
/// (and a carriage return directly before a newline) stripped.  An empty text
/// has no lines; trailing content without a terminator is a final line.
pub open spec fn lines_of(text: Seq<char>) -> Seq<Seq<char>> {
    lines_from(text, 0)
}

/// The character position of the next newline at or after `start`,
/// or the length of `text` when no newline follows.
fn find_newline(text: &str, start: usize) -> (e: usize)
    requires
        start <= text@.len(),
    ensures
        e == line_end(text@, start as int),
        start <= e <= text@.len(),
{
    let n = text.unicode_len();
    let mut e: usize = start;
    while e < n
        invariant
            start <= e <= n,
            n == text@.len(),
            forall|j: int| start <= j < e ==> text@[j] != '\n',
        decreases n - e,
    {
        if text.get_char(e) == '\n' {
            proof {
                lemma_line_end_agrees(text@, start as int, e as int);
            }
            return e;
        }
        e += 1;
    }
    proof {
        lemma_line_end_agrees(text@, start as int, n as int);
    }
    n
}

/// Splits `contents` into its lines.  Each returned line is a view into
/// `contents` itself: nothing is copied.
pub fn split_lines<'a>(contents: &'a str) -> (lines: Vec<&'a str>)
    ensures
        lines.deep_view() == lines_of(contents@),
{
    let n = contents.unicode_len();
    let mut lines: Vec<&'a str> = Vec::new();
    let mut start: usize = 0;
    while start < n
        invariant
            start <= n,
            n == contents@.len(),
            lines_of(contents@) == lines.deep_view() + lines_from(contents@, start as int),
        decreases n - start,
    {
        let ghost text = contents@;
        let ghost prior = lines.deep_view();
        let e = find_newline(contents, start);
        proof {
            lemma_line_end_props(text, start as int);
        }
        let body_end = if e < n && e > start && contents.get_char(e - 1) == '\r' {
            e - 1
        } else {
            e
        };
        let line = contents.substring_char(start, body_end);
        lines.push(line);
        proof {
            assert(line@ == line_body(text, start as int));
            assert(lines.deep_view() =~= prior.push(line@));
        }
        if e < n {
            start = e + 1;
        } else {
            start = n;
            proof {
                assert(lines_from(text, start as int) =~= Seq::<Seq<char>>::empty());
            }
        }
        proof {
            assert(lines_of(text) =~= lines.deep_view() + lines_from(text, start as int));
        }
    }
    proof {
        assert(lines_from(contents@, start as int) =~= Seq::<Seq<char>>::empty());
        assert(lines.deep_view() =~= lines.deep_view() + lines_from(contents@, start as int));
    }
    lines
}

} // verus!
