//! Conversion between a flat character offset into a text and (line, column)
//! coordinates, counting characters and treating `'\n'` as the separator.
//! Includes the round-trip law: offsets survive conversion to coordinates
//! and back.

use vstd::prelude::*;
use crate::text::TextSpan;

verus! {

/// The line (zero-based) on which character offset `k` of `s` falls:
/// the number of newlines strictly before `k`.
pub open spec fn line_of(s: Seq<char>, k: int) -> int
    decreases k,
{
    if k <= 0 {
        0
    } else {
        line_of(s, k - 1) + (if s[k - 1] == '\n' {
            1int
        } else {
            0int
        })
    }
}

/// The column (zero-based) of character offset `k` of `s`: the distance
/// to the start of its line. Columns reset to 0 after each newline.
pub open spec fn col_of(s: Seq<char>, k: int) -> int
    decreases k,
{
    if k <= 0 {
        0
    } else if s[k - 1] == '\n' {
        0
    } else {
        col_of(s, k - 1) + 1
    }
}

/// The walk that `line_col_to_offset` performs: advance through `s` from
/// `pos` (currently at coordinates `line`, `col`) until the target
/// coordinates are reached, the target line is passed, the text ends, or
/// the target line ends (clamping an over-long column to the line end).
pub open spec fn offset_walk(
    s: Seq<char>,
    target_line: int,
    target_col: int,
    pos: int,
    line: int,
    col: int,
) -> int
    decreases s.len() - pos,
{
    if line == target_line && col == target_col {
        pos
    } else if line > target_line {
        pos
    } else if pos < 0 || pos >= s.len() {
        pos
    } else if s[pos] == '\n' {
        if line == target_line {
            pos
        } else {
            offset_walk(s, target_line, target_col, pos + 1, line + 1, 0)
        }
    } else {
        offset_walk(s, target_line, target_col, pos + 1, line, col + 1)
    }
}

/// The character offset at which the cursor lands when asked to move to
/// (`target_line`, `target_col`), clamped to line ends and text end.
pub open spec fn offset_of(s: Seq<char>, target_line: int, target_col: int) -> int {
    offset_walk(s, target_line, target_col, 0, 0, 0)
}

proof fn lemma_line_col_nonneg(s: Seq<char>, k: int)
    ensures
        line_of(s, k) >= 0,
        col_of(s, k) >= 0,
    decreases (if k > 0 {
        k
    } else {
        0
    }),
{
    if k > 0 {
        lemma_line_col_nonneg(s, k - 1);
    }
}

proof fn lemma_line_mono(s: Seq<char>, a: int, b: int)
    requires
        a <= b,
    ensures
        line_of(s, a) <= line_of(s, b),
    decreases b - a,
{
    if a < b {
        lemma_line_mono(s, a, b - 1);
        if b > 0 {
            lemma_line_col_nonneg(s, b - 1);
        }
    }
}

/// Coordinates are strictly increasing, lexicographically, in the offset.
proof fn lemma_line_col_strictly_increasing(s: Seq<char>, p: int, k: int)
    requires
        0 <= p < k <= s.len(),
    ensures
        line_of(s, p) < line_of(s, k) || (line_of(s, p) == line_of(s, k) && col_of(s, p) < col_of(
            s,
            k,
        )),
    decreases k - p,
{
    if p + 1 == k {
        lemma_line_col_nonneg(s, p);
    } else {
        lemma_line_col_strictly_increasing(s, p, k - 1);
        lemma_line_mono(s, p, k - 1);
        lemma_line_col_nonneg(s, k - 1);
    }
}

proof fn lemma_round_trip_walk(s: Seq<char>, k: int, p: int)
    requires
        0 <= p <= k <= s.len(),
    ensures
        offset_walk(s, line_of(s, k), col_of(s, k), p, line_of(s, p), col_of(s, p)) == k,
    decreases k - p,
{
    let target_line = line_of(s, k);
    let target_col = col_of(s, k);
    if p == k {
    } else {
        lemma_line_col_strictly_increasing(s, p, k);
        if s[p] == '\n' {
            assert(line_of(s, p + 1) == line_of(s, p) + 1);
            assert(col_of(s, p + 1) == 0);
            lemma_line_mono(s, p + 1, k);
            assert(line_of(s, p) < target_line);
            lemma_round_trip_walk(s, k, p + 1);
        } else {
            assert(line_of(s, p + 1) == line_of(s, p));
            assert(col_of(s, p + 1) == col_of(s, p) + 1);
            lemma_round_trip_walk(s, k, p + 1);
        }
    }
}

/// The editor's round-trip law: for every valid character offset `k` of a
/// text, converting the offset to (line, column) coordinates and converting
/// those coordinates back yields exactly `k`.
pub proof fn lemma_offset_line_col_round_trip(s: Seq<char>, k: int)
    requires
        0 <= k <= s.len(),
    ensures
        offset_of(s, line_of(s, k), col_of(s, k)) == k,
{
    lemma_round_trip_walk(s, k, 0);
}

/// Converts a character offset into (line, column) coordinates.
pub fn offset_to_line_col(t: &TextSpan, offset: usize) -> (r: (usize, usize))
    requires
        offset <= t@.len(),
    ensures
        r.0 == line_of(t@, offset as int),
        r.1 == col_of(t@, offset as int),
{
    let mut line: usize = 0;
    let mut col: usize = 0;
    let mut i: usize = 0;
    while i < offset
        invariant
            0 <= i <= offset <= t@.len(),
            line == line_of(t@, i as int),
            col == col_of(t@, i as int),
            line <= i,
            col <= i,
        decreases offset - i,
    {
        let ch = t.char_at(i);
        if ch == '\n' {
            line = line + 1;
            col = 0;
        } else {
            col = col + 1;
        }
        i = i + 1;
    }
    (line, col)
}

/// Converts (line, column) coordinates into a character offset, clamping an
/// over-long column to its line's end and an over-large line to the text's
/// end.
pub fn line_col_to_offset(t: &TextSpan, target_line: usize, target_col: usize) -> (r: usize)
    ensures
        r == offset_of(t@, target_line as int, target_col as int),
        r <= t@.len(),
{
    let n = t.len();
    let mut pos: usize = 0;
    let mut line: usize = 0;
    let mut col: usize = 0;
    loop
        invariant_except_break
            pos <= n,
            n == t@.len(),
            line <= pos,
            col <= pos,
            offset_walk(
                t@,
                target_line as int,
                target_col as int,
                pos as int,
                line as int,
                col as int,
            ) == offset_of(t@, target_line as int, target_col as int),
        ensures
            pos <= n,
            offset_of(t@, target_line as int, target_col as int) == pos as int,
        decreases n - pos,
    {
        if line == target_line && col == target_col {
            break;
        }
        if line > target_line {
            break;
        }
        if pos >= n {
            break;
        }
        let ch = t.char_at(pos);
        if ch == '\n' {
            if line == target_line {
                break;
            }
            line = line + 1;
            col = 0;
        } else {
            col = col + 1;
        }
        pos = pos + 1;
    }
    pos
}

} // verus!
