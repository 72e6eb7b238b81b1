//! The editable character sequence backing the input editor, plus the
//! character-level helpers (whitespace classification, trimming, string
//! conversion) shared by the rest of the crate.

use vstd::prelude::*;
use vstd::string::StrSliceExecFns;

verus! {

/// The characters that `str::trim` removes: everything with the Unicode
/// `White_Space` property.
pub open spec fn is_space_char(c: char) -> bool {
    ||| c == ' '
    ||| c == '\t'
    ||| c == '\n'
    ||| c == '\u{b}'
    ||| c == '\u{c}'
    ||| c == '\r'
    ||| c == '\u{85}'
    ||| c == '\u{a0}'
    ||| c == '\u{1680}'
    ||| ('\u{2000}' <= c && c <= '\u{200a}')
    ||| c == '\u{2028}'
    ||| c == '\u{2029}'
    ||| c == '\u{202f}'
    ||| c == '\u{205f}'
    ||| c == '\u{3000}'
}

pub fn is_space(c: char) -> (r: bool)
    ensures
        r == is_space_char(c),
{
    match c {
        ' ' | '\t' | '\n' | '\u{b}' | '\u{c}' | '\r' | '\u{85}' | '\u{a0}' | '\u{1680}'
            | '\u{2028}' | '\u{2029}' | '\u{202f}' | '\u{205f}' | '\u{3000}' => true,
        _ => '\u{2000}' <= c && c <= '\u{200a}',
    }
}

/// The text with leading whitespace removed.
pub open spec fn trim_front(s: Seq<char>) -> Seq<char>
    decreases s.len(),
{
    if s.len() > 0 && is_space_char(s[0]) {
        trim_front(s.drop_first())
    } else {
        s
    }
}

/// The text with trailing whitespace removed.
pub open spec fn trim_back(s: Seq<char>) -> Seq<char>
    decreases s.len(),
{
    if s.len() > 0 && is_space_char(s.last()) {
        trim_back(s.drop_last())
    } else {
        s
    }
}

/// The text with whitespace removed from both ends, as `str::trim` does.
pub open spec fn trim_spec(s: Seq<char>) -> Seq<char> {
    trim_back(trim_front(s))
}

pub proof fn lemma_trim_front_skip(s: Seq<char>, i: int)
    requires
        0 <= i <= s.len(),
        forall|k: int| 0 <= k < i ==> is_space_char(s[k]),
        i < s.len() ==> !is_space_char(s[i]),
    ensures
        trim_front(s) == s.skip(i),
    decreases i,
{
    if i == 0 {
        assert(s.skip(0) =~= s);
    } else {
        assert(is_space_char(s[0]));
        lemma_trim_front_skip(s.drop_first(), i - 1);
        assert(s.drop_first().skip(i - 1) =~= s.skip(i));
    }
}

pub proof fn lemma_trim_back_take(s: Seq<char>, j: int)
    requires
        0 <= j <= s.len(),
        forall|k: int| j <= k < s.len() ==> is_space_char(s[k]),
        j > 0 ==> !is_space_char(s[j - 1]),
    ensures
        trim_back(s) == s.take(j),
    decreases s.len() - j,
{
    if j == s.len() {
        if s.len() > 0 && is_space_char(s.last()) {
            assert(!is_space_char(s[j - 1]));
            assert(false);
        }
        assert(s.take(j) =~= s);
    } else {
        assert(is_space_char(s.last()));
        lemma_trim_back_take(s.drop_last(), j);
        assert(s.drop_last().take(j) =~= s.take(j));
    }
}

/// Removes leading and trailing whitespace from a character sequence,
/// as `str::trim` would on the corresponding string.
pub fn trim_chars(v: &Vec<char>) -> (r: Vec<char>)
    ensures
        r@ == trim_spec(v@),
{
    let n = v.len();
    let mut start: usize = 0;
    while start < n && is_space(v[start])
        invariant
            0 <= start <= n,
            n == v@.len(),
            forall|k: int| 0 <= k < start ==> is_space_char(v@[k]),
        decreases n - start,
    {
        start = start + 1;
    }
    let mut end: usize = n;
    while end > start && is_space(v[end - 1])
        invariant
            start <= end <= n,
            n == v@.len(),
            forall|k: int| 0 <= k < start ==> is_space_char(v@[k]),
            start < v@.len() ==> !is_space_char(v@[start as int]),
            forall|k: int| end <= k < n ==> is_space_char(v@[k]),
        decreases end,
    {
        end = end - 1;
    }
    proof {
        lemma_trim_front_skip(v@, start as int);
        let t = v@.skip(start as int);
        assert forall|k: int| (end - start) <= k < t.len() implies is_space_char(t[k]) by {
            assert(t[k] == v@[k + start]);
        }
        if end > start {
            assert(t[end - start - 1] == v@[end - 1]);
        }
        lemma_trim_back_take(t, end - start);
    }
    let mut r: Vec<char> = Vec::new();
    let mut i: usize = start;
    while i < end
        invariant
            start <= i <= end <= n,
            n == v@.len(),
            r@ == v@.subrange(start as int, i as int),
        decreases end - i,
    {
        r.push(v[i]);
        i = i + 1;
        proof {
            assert(r@ =~= v@.subrange(start as int, i as int));
        }
    }
    proof {
        assert(v@.subrange(start as int, end as int) =~= v@.skip(start as int).take(
            end - start as int,
        ));
    }
    r
}

/// The borrowed substring of `s` with surrounding whitespace removed, as
/// `str::trim` computes it.
pub fn trimmed_str<'a>(s: &'a str) -> (r: &'a str)
    ensures
        r@ == trim_spec(s@),
{
    let n = s.unicode_len();
    let mut start: usize = 0;
    while start < n && is_space(s.get_char(start))
        invariant
            0 <= start <= n,
            n == s@.len(),
            forall|k: int| 0 <= k < start ==> is_space_char(s@[k]),
        decreases n - start,
    {
        start = start + 1;
    }
    let mut end: usize = n;
    while end > start && is_space(s.get_char(end - 1))
        invariant
            start <= end <= n,
            n == s@.len(),
            forall|k: int| 0 <= k < start ==> is_space_char(s@[k]),
            start < s@.len() ==> !is_space_char(s@[start as int]),
            forall|k: int| end <= k < n ==> is_space_char(s@[k]),
        decreases end,
    {
        end = end - 1;
    }
    proof {
        lemma_trim_front_skip(s@, start as int);
        let t = s@.skip(start as int);
        assert forall|k: int| (end - start) <= k < t.len() implies is_space_char(t[k]) by {
            assert(t[k] == s@[k + start]);
        }
        if end > start {
            assert(t[end - start - 1] == s@[end - 1]);
        }
        lemma_trim_back_take(t, end - start);
        assert(s@.skip(start as int).take(end - start as int) =~= s@.subrange(
            start as int,
            end as int,
        ));
    }
    s.substring_char(start, end)
}

/// Collects the characters of a string into a vector.
pub fn str_to_chars(s: &str) -> (r: Vec<char>)
    ensures
        r@ == s@,
{
    let n = s.unicode_len();
    let mut r: Vec<char> = Vec::new();
    let mut i: usize = 0;
    while i < n
        invariant
            0 <= i <= n,
            n == s@.len(),
            r@ == s@.take(i as int),
        decreases n - i,
    {
        r.push(s.get_char(i));
        i = i + 1;
        proof {
            assert(r@ =~= s@.take(i as int));
        }
    }
    proof {
        assert(s@.take(n as int) =~= s@);
    }
    r
}

/// Relies on `String: FromIterator<char>`: collecting characters yields the
/// string with exactly those characters in order.
#[verifier::external_body]
pub fn chars_to_string(v: &Vec<char>) -> (r: String)
    ensures
        r@ == v@,
{
    v.iter().collect()
}

/// An editable sequence of characters addressed by character offset: the
/// storage behind the multi-line input editor.
pub struct TextSpan {
    chars: Vec<char>,
}

impl View for TextSpan {
    type V = Seq<char>;

    closed spec fn view(&self) -> Seq<char> {
        self.chars@
    }
}

impl TextSpan {
    pub fn new() -> (r: TextSpan)
        ensures
            r@ == Seq::<char>::empty(),
    {
        TextSpan { chars: Vec::new() }
    }

    pub fn from_str(s: &str) -> (r: TextSpan)
        ensures
            r@ == s@,
    {
        TextSpan { chars: str_to_chars(s) }
    }

    pub fn len(&self) -> (r: usize)
        ensures
            r == self@.len(),
    {
        self.chars.len()
    }

    pub fn is_empty(&self) -> (r: bool)
        ensures
            r == (self@.len() == 0),
    {
        self.chars.len() == 0
    }

    pub fn char_at(&self, i: usize) -> (r: char)
        requires
            i < self@.len(),
        ensures
            r == self@[i as int],
    {
        self.chars[i]
    }

    pub fn as_chars(&self) -> (r: &Vec<char>)
        ensures
            r@ == self@,
    {
        &self.chars
    }

    pub fn insert_char(&mut self, at: usize, c: char)
        requires
            at <= old(self)@.len(),
        ensures
            final(self)@ == old(self)@.insert(at as int, c),
    {
        self.chars.insert(at, c);
    }

    pub fn remove_char(&mut self, at: usize)
        requires
            at < old(self)@.len(),
        ensures
            final(self)@ == old(self)@.remove(at as int),
    {
        self.chars.remove(at);
    }

    /// Inserts all of `v` at offset `at`, preserving order.
    pub fn insert_chars(&mut self, at: usize, v: &Vec<char>)
        requires
            at <= old(self)@.len(),
        ensures
            final(self)@ == old(self)@.take(at as int) + v@ + old(self)@.skip(at as int),
    {
        let ghost orig = self.chars@;
        let mut out: Vec<char> = Vec::new();
        proof {
            assert(out@ =~= orig.take(0));
        }
        let mut i: usize = 0;
        while i < at
            invariant
                0 <= i <= at <= orig.len(),
                orig == self.chars@,
                out@ == orig.take(i as int),
            decreases at - i,
        {
            out.push(self.chars[i]);
            i = i + 1;
            proof {
                assert(out@ =~= orig.take(i as int));
            }
        }
        let n = v.len();
        proof {
            assert(out@ =~= orig.take(at as int) + v@.take(0));
        }
        let mut j: usize = 0;
        while j < n
            invariant
                0 <= j <= n,
                n == v@.len(),
                at <= orig.len(),
                orig == self.chars@,
                out@ == orig.take(at as int) + v@.take(j as int),
            decreases n - j,
        {
            out.push(v[j]);
            j = j + 1;
            proof {
                assert(out@ =~= orig.take(at as int) + v@.take(j as int));
            }
        }
        let m = self.chars.len();
        proof {
            assert(v@.take(n as int) =~= v@);
            assert(out@ =~= orig.take(at as int) + v@ + orig.subrange(at as int, at as int));
        }
        let mut k: usize = at;
        while k < m
            invariant
                at <= k <= m,
                m == orig.len(),
                orig == self.chars@,
                out@ == orig.take(at as int) + v@ + orig.subrange(at as int, k as int),
            decreases m - k,
        {
            out.push(self.chars[k]);
            k = k + 1;
            proof {
                assert(out@ =~= orig.take(at as int) + v@ + orig.subrange(at as int, k as int));
            }
        }
        self.chars = out;
        proof {
            assert(v@.take(n as int) =~= v@);
            assert(orig.subrange(at as int, m as int) =~= orig.skip(at as int));
        }
    }

    pub fn clear(&mut self)
        ensures
            final(self)@ == Seq::<char>::empty(),
    {
        self.chars.clear();
    }

    /// The whole content as a freshly allocated string.
    pub fn to_string_owned(&self) -> (r: String)
        ensures
            r@ == self@,
    {
        chars_to_string(&self.chars)
    }

    /// The content with surrounding whitespace removed.
    pub fn trimmed(&self) -> (r: Vec<char>)
        ensures
            r@ == trim_spec(self@),
    {
        trim_chars(&self.chars)
    }
}

} // verus!
