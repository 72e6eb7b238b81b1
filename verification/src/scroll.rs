//! Viewport logic: how many lines a text has, how it splits into lines
//! (with `str::lines` semantics: no trailing empty line), and how a scroll
//! anchor moves so that the visible window follows the cursor or stays
//! clamped to the text.

use vstd::prelude::*;
use crate::cursor::line_of;

verus! {

/// The number of lines that `str::lines` yields: 0 for the empty text,
/// otherwise one more than the number of newlines, except that a trailing
/// newline opens no further line.
pub open spec fn line_count(s: Seq<char>) -> int {
    if s.len() == 0 {
        0
    } else {
        line_of(s, s.len() as int) + (if s.last() == '\n' {
            0int
        } else {
            1int
        })
    }
}

/// The index of the first newline of `s`, or `s.len()` if there is none.
pub open spec fn first_newline(s: Seq<char>) -> int
    decreases s.len(),
{
    if s.len() == 0 {
        0
    } else if s[0] == '\n' {
        0
    } else {
        1 + first_newline(s.drop_first())
    }
}

/// The lines of `s`, split at `'\n'`, with `str::lines` semantics: the
/// separators are dropped and a trailing newline yields no empty last line.
pub open spec fn lines_spec(s: Seq<char>) -> Seq<Seq<char>>
    decreases s.len(),
{
    if s.len() == 0 {
        Seq::empty()
    } else {
        let i = first_newline(s);
        if 0 <= i && i < s.len() {
            seq![s.take(i)] + lines_spec(s.skip(i + 1))
        } else {
            seq![s]
        }
    }
}

proof fn lemma_first_newline_at(s: Seq<char>, i: int)
    requires
        0 <= i <= s.len(),
        forall|k: int| 0 <= k < i ==> s[k] != '\n',
        i < s.len() ==> s[i] == '\n',
    ensures
        first_newline(s) == i,
    decreases i,
{
    if s.len() == 0 {
    } else if i == 0 {
    } else {
        assert(s[0] != '\n');
        assert forall|k: int| 0 <= k < i - 1 implies s.drop_first()[k] != '\n' by {
            assert(s.drop_first()[k] == s[k + 1]);
        }
        if i - 1 < s.drop_first().len() {
            assert(s.drop_first()[i - 1] == s[i]);
        }
        lemma_first_newline_at(s.drop_first(), i - 1);
    }
}

proof fn lemma_first_newline_bounds(s: Seq<char>)
    ensures
        0 <= first_newline(s) <= s.len(),
        forall|k: int| 0 <= k < first_newline(s) ==> s[k] != '\n',
        first_newline(s) < s.len() ==> s[first_newline(s)] == '\n',
    decreases s.len(),
{
    if s.len() == 0 {
    } else if s[0] == '\n' {
    } else {
        lemma_first_newline_bounds(s.drop_first());
        assert forall|k: int| 0 <= k < first_newline(s) implies s[k] != '\n' by {
            if k > 0 {
                assert(s.drop_first()[k - 1] == s[k]);
            }
        }
        if first_newline(s) < s.len() {
            assert(s.drop_first()[first_newline(s) - 1] == s[first_newline(s)]);
        }
    }
}

/// Newlines before position `k` split as newlines before `m` plus newlines
/// of the remainder.
proof fn lemma_line_of_split(s: Seq<char>, m: int, k: int)
    requires
        0 <= m <= k <= s.len(),
    ensures
        line_of(s, k) == line_of(s, m) + line_of(s.skip(m), k - m),
    decreases k - m,
{
    if m < k {
        lemma_line_of_split(s, m, k - 1);
        assert(s.skip(m)[k - 1 - m] == s[k - 1]);
    }
}

proof fn lemma_line_of_no_newline(s: Seq<char>, k: int)
    requires
        0 <= k <= s.len(),
        forall|j: int| 0 <= j < k ==> s[j] != '\n',
    ensures
        line_of(s, k) == 0,
    decreases k,
{
    if k > 0 {
        lemma_line_of_no_newline(s, k - 1);
    }
}

/// `lines_spec` yields exactly `line_count` lines.
pub proof fn lemma_lines_spec_len(s: Seq<char>)
    ensures
        lines_spec(s).len() == line_count(s),
    decreases s.len(),
{
    if s.len() == 0 {
    } else {
        lemma_first_newline_bounds(s);
        let i = first_newline(s);
        if i == s.len() {
            lemma_line_of_no_newline(s, s.len() as int);
            assert(s.last() != '\n');
        } else {
            lemma_lines_spec_len(s.skip(i + 1));
            lemma_line_of_split(s, i + 1, s.len() as int);
            lemma_line_of_no_newline(s, i);
            assert(line_of(s, i + 1) == 1);
            let rest = s.skip(i + 1);
            if i + 1 == s.len() {
                assert(s.last() == '\n');
            } else {
                assert(rest.len() > 0);
                assert(rest.last() == s.last());
            }
        }
    }
}

/// Counts the lines of a character sequence, as `str::lines().count()` would.
pub fn count_lines(v: &Vec<char>) -> (r: usize)
    ensures
        r == line_count(v@),
{
    let n = v.len();
    if n == 0 {
        return 0;
    }
    let mut newlines: usize = 0;
    let mut i: usize = 0;
    while i < n
        invariant
            0 <= i <= n,
            n == v@.len(),
            newlines == line_of(v@, i as int),
            newlines <= i,
        decreases n - i,
    {
        if v[i] == '\n' {
            newlines = newlines + 1;
        }
        i = i + 1;
    }
    if v[n - 1] == '\n' {
        newlines
    } else {
        proof {
            lemma_line_of_le(v@, n as int);
        }
        newlines + 1
    }
}

proof fn lemma_line_of_le(s: Seq<char>, k: int)
    requires
        0 < k <= s.len(),
        s[k - 1] != '\n',
    ensures
        line_of(s, k) <= k - 1,
{
    lemma_line_of_le_weak(s, k - 1);
}

proof fn lemma_line_of_le_weak(s: Seq<char>, k: int)
    ensures
        line_of(s, k) <= (if k >= 0 {
            k
        } else {
            0
        }),
    decreases (if k > 0 {
        k
    } else {
        0
    }),
{
    if k > 0 {
        lemma_line_of_le_weak(s, k - 1);
    }
}

/// Splits a character sequence into its lines, dropping the newline
/// separators, with no trailing empty line.
pub fn split_lines(v: &Vec<char>) -> (r: Vec<Vec<char>>)
    ensures
        r.deep_view() == lines_spec(v@),
{
    let n = v.len();
    let mut acc: Vec<Vec<char>> = Vec::new();
    let mut cur: Vec<char> = Vec::new();
    proof {
        assert(v@.skip(0) =~= v@);
        assert(cur@ =~= v@.subrange(0, 0));
        assert(acc.deep_view() =~~= Seq::<Seq<char>>::empty());
        assert(Seq::<Seq<char>>::empty() + lines_spec(v@) =~= lines_spec(v@));
    }
    let mut i: usize = 0;
    while i < n
        invariant
            0 <= i <= n,
            n == v@.len(),
            cur@.len() <= i,
            cur@ == v@.subrange(i - cur@.len(), i as int),
            forall|k: int| 0 <= k < cur@.len() ==> cur@[k] != '\n',
            lines_spec(v@) == acc.deep_view() + lines_spec(v@.skip(i - cur@.len())),
        decreases n - i,
    {
        let c = v[i];
        proof {
            let start = i - cur@.len();
            let suffix = v@.skip(start);
            assert forall|k: int| 0 <= k < cur@.len() implies suffix[k] != '\n' by {
                assert(suffix[k] == v@[start + k]);
                assert(v@[start + k] == cur@[k]);
            }
        }
        if c == '\n' {
            let ghost curv = cur@;
            proof {
                let start = i - curv.len();
                let suffix = v@.skip(start);
                assert(suffix[curv.len() as int] == v@[i as int]);
                lemma_first_newline_at(suffix, curv.len() as int);
                assert(suffix.take(curv.len() as int) =~= curv);
                assert(suffix.skip(curv.len() as int + 1) =~= v@.skip(i + 1));
                assert(lines_spec(suffix) == seq![curv] + lines_spec(v@.skip(i + 1)));
            }
            let ghost old_acc = acc.deep_view();
            acc.push(cur);
            proof {
                assert(acc.deep_view() =~~= old_acc + seq![curv]);
                assert(old_acc + (seq![curv] + lines_spec(v@.skip(i + 1))) =~= (old_acc + seq![
                    curv,
                ]) + lines_spec(v@.skip(i + 1)));
            }
            cur = Vec::new();
            proof {
                assert(cur@ =~= v@.subrange(i + 1, i + 1));
            }
        } else {
            cur.push(c);
            proof {
                assert(cur@ =~= v@.subrange(i + 1 - cur@.len(), i + 1));
            }
        }
        i = i + 1;
    }
    if cur.len() > 0 {
        let ghost curv = cur@;
        proof {
            let start = i - curv.len();
            let suffix = v@.skip(start);
            assert forall|k: int| 0 <= k < suffix.len() implies suffix[k] != '\n' by {
                assert(suffix[k] == v@[start + k]);
                assert(v@[start + k] == curv[k]);
            }
            lemma_first_newline_at(suffix, suffix.len() as int);
            assert(suffix =~= curv);
            assert(lines_spec(suffix) == seq![curv]);
        }
        let ghost old_acc = acc.deep_view();
        acc.push(cur);
        proof {
            assert(acc.deep_view() =~~= old_acc + seq![curv]);
        }
    } else {
        proof {
            assert(v@.skip(i as int) =~= Seq::<char>::empty());
            assert(lines_spec(v@) =~~= acc.deep_view());
        }
    }
    acc
}

/// The anchor (first visible line) of an editing viewport after the cursor
/// moved: it retreats to the cursor's line when the cursor is above the
/// window and advances just enough to show it when the cursor is below.
pub open spec fn adjusted_anchor(cursor_line: int, anchor: int, max_visible: int) -> int {
    if cursor_line < anchor {
        cursor_line
    } else if cursor_line >= anchor + max_visible {
        cursor_line - max_visible + 1
    } else {
        anchor
    }
}

/// The scroller's guarantee: after an adjustment the cursor's line always
/// lies within the window of `max_visible` lines starting at the anchor.
pub proof fn lemma_adjusted_anchor_shows_cursor(cursor_line: int, anchor: int, max_visible: int)
    requires
        0 <= cursor_line,
        0 <= anchor,
        1 <= max_visible,
    ensures
        adjusted_anchor(cursor_line, anchor, max_visible) <= cursor_line,
        cursor_line < adjusted_anchor(cursor_line, anchor, max_visible) + max_visible,
        0 <= adjusted_anchor(cursor_line, anchor, max_visible),
{
}

pub fn adjust_anchor(cursor_line: usize, anchor: usize, max_visible: usize) -> (r: usize)
    requires
        max_visible >= 1,
    ensures
        r == adjusted_anchor(cursor_line as int, anchor as int, max_visible as int),
{
    if cursor_line < anchor {
        cursor_line
    } else if cursor_line - anchor >= max_visible {
        cursor_line - (max_visible - 1)
    } else {
        anchor
    }
}

/// A scroll position moved `step` lines up, stopping at the top.
pub open spec fn scrolled_up(scroll: int, step: int) -> int {
    if scroll >= step {
        scroll - step
    } else {
        0
    }
}

pub fn scroll_up(scroll: usize, step: usize) -> (r: usize)
    ensures
        r == scrolled_up(scroll as int, step as int),
{
    if scroll >= step {
        scroll - step
    } else {
        0
    }
}

/// A scroll position moved `step` lines down, clamped to the last line;
/// with no lines at all it stays put.
pub open spec fn scrolled_down(scroll: int, step: int, total_lines: int) -> int {
    if total_lines == 0 {
        scroll
    } else if scroll + step <= total_lines - 1 {
        scroll + step
    } else {
        total_lines - 1
    }
}

pub fn scroll_down(scroll: usize, step: usize, total_lines: usize) -> (r: usize)
    ensures
        r == scrolled_down(scroll as int, step as int, total_lines as int),
{
    if total_lines == 0 {
        scroll
    } else {
        let max_scroll = total_lines - 1;
        if scroll >= max_scroll {
            max_scroll
        } else if max_scroll - scroll <= step {
            max_scroll
        } else {
            scroll + step
        }
    }
}

/// The first visible line of a window: the anchor, clamped so that it never
/// points past the last line.
pub open spec fn window_start(anchor: int, total_lines: int) -> int {
    if total_lines == 0 {
        0
    } else if anchor <= total_lines - 1 {
        anchor
    } else {
        total_lines - 1
    }
}

/// One past the last visible line of a window of `height` lines starting at
/// `start`.
pub open spec fn window_end(start: int, height: int, total_lines: int) -> int {
    if start + height <= total_lines {
        start + height
    } else {
        total_lines
    }
}

/// The visible half-open line range `[start, end)` of a viewport.
pub fn window_bounds(anchor: usize, height: usize, total_lines: usize) -> (r: (usize, usize))
    ensures
        r.0 == window_start(anchor as int, total_lines as int),
        r.1 == window_end(r.0 as int, height as int, total_lines as int),
        r.0 <= r.1 <= total_lines,
{
    let start = if total_lines == 0 {
        0
    } else if anchor <= total_lines - 1 {
        anchor
    } else {
        total_lines - 1
    };
    let end = if total_lines - start <= height {
        total_lines
    } else {
        start + height
    };
    (start, end)
}

} // verus!
