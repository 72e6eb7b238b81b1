//! Read-only computations for the paint boundary: texts split into line
//! strings, the rendered line count of the input editor, and the "N more
//! lines above/below" notice shown when the input outgrows its window.

use vstd::prelude::*;
use crate::scroll::{line_count, lines_spec, count_lines, split_lines};
use crate::text::{chars_to_string, str_to_chars, TextSpan};
use crate::unicode::hexdig;

verus! {

/// The views of a vector of strings.
pub open spec fn string_views(v: Seq<String>) -> Seq<Seq<char>> {
    v.map_values(|s: String| s@)
}

/// Splits a character vector into its lines, each as an owned string;
/// there are as many of them as `str::lines` would count.
pub fn lines_as_strings(v: &Vec<char>) -> (r: Vec<String>)
    ensures
        r.deep_view() == lines_spec(v@),
        r@.len() == line_count(v@),
{
    let parts = split_lines(v);
    let n = parts.len();
    let mut r: Vec<String> = Vec::new();
    let mut i: usize = 0;
    while i < n
        invariant
            0 <= i <= n,
            n == parts@.len(),
            parts.deep_view() == lines_spec(v@),
            r@.len() == i,
            forall|k: int| 0 <= k < i ==> (#[trigger] r@[k])@ == lines_spec(v@)[k],
        decreases n - i,
    {
        let line = chars_to_string(&parts[i]);
        proof {
            assert(parts@[i as int].deep_view() == parts.deep_view()[i as int]);
            assert(line@ =~= parts@[i as int].deep_view());
        }
        r.push(line);
        i = i + 1;
    }
    proof {
        assert(lines_spec(v@).len() == parts.deep_view().len());
        assert forall|k: int| 0 <= k < n implies r.deep_view()[k] == lines_spec(v@)[k] by {
            assert(r.deep_view()[k] == r@[k].deep_view());
        }
        assert(r.deep_view() =~= lines_spec(v@));
        crate::scroll::lemma_lines_spec_len(v@);
    }
    r
}

/// The lines of a string, each as an owned string; there are as many of
/// them as `str::lines` would count.
pub fn lines_of_str(s: &str) -> (r: Vec<String>)
    ensures
        r.deep_view() == lines_spec(s@),
        r@.len() == line_count(s@),
{
    let chars = str_to_chars(s);
    lines_as_strings(&chars)
}

/// How many lines the input editor renders: at least one, even when the
/// text is empty.
pub open spec fn rendered_input_lines(input: Seq<char>) -> int {
    if input.len() == 0 {
        1
    } else if line_count(input) > 1 {
        line_count(input)
    } else {
        1
    }
}

pub fn rendered_input_line_count(input: &TextSpan) -> (r: usize)
    ensures
        r == rendered_input_lines(input@),
{
    if input.is_empty() {
        1
    } else {
        let c = count_lines(input.as_chars());
        if c > 1 {
            c
        } else {
            1
        }
    }
}

/// A nonnegative number written in decimal, most significant digit first.
pub open spec fn dec_of(n: int) -> Seq<char>
    decreases n,
{
    if n < 10 {
        seq![hexdig(n)]
    } else {
        dec_of(n / 10).push(hexdig(n % 10))
    }
}

fn push_dec_digits(out: &mut Vec<char>, n: usize)
    ensures
        final(out)@ == old(out)@ + dec_of(n as int),
    decreases n,
{
    if n < 10 {
        out.push(crate::unicode::hex_digit_char(n as u32));
        proof {
            assert(final(out)@ =~= old(out)@ + dec_of(n as int));
        }
    } else {
        push_dec_digits(out, n / 10);
        out.push(crate::unicode::hex_digit_char((n % 10) as u32));
        proof {
            assert(final(out)@ =~= old(out)@ + dec_of(n as int));
        }
    }
}

/// A nonnegative number as a decimal string.
pub fn dec_string(n: usize) -> (r: String)
    ensures
        r@ == dec_of(n as int),
{
    let mut out: Vec<char> = Vec::new();
    push_dec_digits(&mut out, n);
    proof {
        assert(out@ =~= dec_of(n as int));
    }
    chars_to_string(&out)
}

/// An empty suffix for one line, a plural `s` for any other count.
pub open spec fn plural_s(n: int) -> Seq<char> {
    if n == 1 {
        Seq::empty()
    } else {
        "s"@
    }
}

fn plural_suffix(n: usize) -> (r: &'static str)
    ensures
        r@ == plural_s(n as int),
{
    proof {
        reveal_strlit("s");
        reveal_strlit("");
        assert(""@ =~= Seq::<char>::empty());
    }
    if n == 1 {
        ""
    } else {
        "s"
    }
}

/// How many input lines sit above the window.
pub open spec fn lines_above(anchor: int) -> int {
    anchor
}

/// How many input lines sit below a five-line window anchored at `anchor`.
pub open spec fn lines_below(count: int, anchor: int) -> int {
    if count - (anchor + 5) > 0 {
        count - (anchor + 5)
    } else {
        0
    }
}

/// The notice about input lines hidden above and below the window: present
/// whenever at least one line is hidden on either side.
pub open spec fn overflow_msg_spec(count: int, anchor: int) -> Option<Seq<char>> {
    let above = lines_above(anchor);
    let below = lines_below(count, anchor);
    if above > 0 && below > 0 {
        Some(
            dec_of(above) + " more line"@ + plural_s(above) + " above, "@ + dec_of(below)
                + " below"@,
        )
    } else if above > 0 {
        Some(dec_of(above) + " more line"@ + plural_s(above) + " above"@)
    } else if below > 0 {
        Some(dec_of(below) + " more line"@ + plural_s(below) + " below"@)
    } else {
        None
    }
}

/// Builds the hidden-lines notice for an input of `count` rendered lines
/// scrolled to `anchor`.
pub fn overflow_message(count: usize, anchor: usize) -> (r: Option<String>)
    ensures
        match (r, overflow_msg_spec(count as int, anchor as int)) {
            (Some(m), Some(t)) => m@ == t,
            (None, None) => true,
            _ => false,
        },
{
    let above = anchor;
    let below = if count > anchor && count - anchor > 5 {
        count - anchor - 5
    } else {
        0
    };
    proof {
        assert(below == lines_below(count as int, anchor as int));
    }
    if above > 0 && below > 0 {
        let m = dec_string(above).concat(" more line").concat(plural_suffix(above)).concat(
            " above, ",
        ).concat(dec_string(below).as_str()).concat(" below");
        Some(m)
    } else if above > 0 {
        let m = dec_string(above).concat(" more line").concat(plural_suffix(above)).concat(
            " above",
        );
        Some(m)
    } else if below > 0 {
        let m = dec_string(below).concat(" more line").concat(plural_suffix(below)).concat(
            " below",
        );
        Some(m)
    } else {
        None
    }
}

} // verus!
