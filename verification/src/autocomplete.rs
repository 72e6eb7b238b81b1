//! Autocomplete over the command registry: the ordered prefix-match
//! candidates for the current input, and the cyclic selection index that
//! Tab advances. Filtering is a pure function of the input and the
//! registry, so repeating it can never change the candidates.

use vstd::prelude::*;
use vstd::string::StrSliceExecFns;
use crate::registry::{command_names, get_available_commands};
use crate::text::TextSpan;

verus! {

/// The autocomplete candidates for `input` among `names`, in registry
/// order: empty unless the input starts with the command prefix `/`,
/// otherwise every name the input is a prefix of.
pub open spec fn filtered_spec(names: Seq<Seq<char>>, input: Seq<char>) -> Seq<Seq<char>>
    decreases names.len(),
{
    if input.len() == 0 || input[0] != '/' {
        Seq::empty()
    } else if names.len() == 0 {
        Seq::empty()
    } else {
        let rest = filtered_spec(names.drop_first(), input);
        if input.is_prefix_of(names[0]) {
            seq![names[0]] + rest
        } else {
            rest
        }
    }
}

/// Filtering is deterministic: any two candidate lists computed from the
/// same input and the same registry are equal, element for element and in
/// order — so filtering twice yields the same result as filtering once.
pub proof fn lemma_filter_deterministic(
    names: Seq<Seq<char>>,
    input: Seq<char>,
    r1: Seq<Seq<char>>,
    r2: Seq<Seq<char>>,
)
    requires
        r1 == filtered_spec(names, input),
        r2 == filtered_spec(names, input),
    ensures
        r1 == r2,
{
}

/// Whether `prefix` spells the first characters of `s`.
pub fn str_starts_with_chars(s: &str, prefix: &Vec<char>) -> (r: bool)
    ensures
        r == prefix@.is_prefix_of(s@),
{
    let n = s.unicode_len();
    let m = prefix.len();
    if m > n {
        return false;
    }
    let mut i: usize = 0;
    while i < m
        invariant
            0 <= i <= m <= n,
            n == s@.len(),
            m == prefix@.len(),
            forall|k: int| 0 <= k < i ==> prefix@[k] == s@[k],
        decreases m - i,
    {
        if prefix[i] != s.get_char(i) {
            return false;
        }
        i = i + 1;
    }
    proof {
        assert(prefix@ =~= s@.subrange(0, m as int));
    }
    true
}

/// The autocomplete candidates for the current input: every registered
/// command name the input is a prefix of, in registry declaration order;
/// none at all when the input does not start with `/`.
pub fn get_filtered_commands(input: &TextSpan) -> (r: Vec<&'static str>)
    ensures
        r.deep_view() == filtered_spec(command_names(), input@),
{
    let mut r: Vec<&'static str> = Vec::new();
    if input.is_empty() || input.char_at(0) != '/' {
        proof {
            assert(r.deep_view() =~~= filtered_spec(command_names(), input@));
        }
        return r;
    }
    let names = get_available_commands();
    let chars = input.as_chars();
    let n = names.len();
    let mut i: usize = 0;
    proof {
        assert(names.deep_view().skip(0) =~= names.deep_view());
        assert(r.deep_view() + filtered_spec(names.deep_view(), input@)
            =~~= filtered_spec(names.deep_view(), input@));
    }
    while i < n
        invariant
            0 <= i <= n,
            n == names@.len(),
            names.deep_view() == command_names(),
            chars@ == input@,
            input@.len() > 0 && input@[0] == '/',
            filtered_spec(command_names(), input@) == r.deep_view() + filtered_spec(
                names.deep_view().skip(i as int),
                input@,
            ),
        decreases n - i,
    {
        let ghost suf = names.deep_view().skip(i as int);
        let ghost r0 = r.deep_view();
        proof {
            assert(suf[0] == names.deep_view()[i as int]);
            assert(names.deep_view()[i as int] == names@[i as int]@);
            assert(suf.drop_first() =~= names.deep_view().skip(i + 1));
        }
        let name = names[i];
        if str_starts_with_chars(name, chars) {
            r.push(name);
            proof {
                assert(r.deep_view() =~~= r0 + seq![name@]);
                assert(filtered_spec(suf, input@) == seq![name@] + filtered_spec(
                    suf.drop_first(),
                    input@,
                ));
                assert(r0 + (seq![name@] + filtered_spec(suf.drop_first(), input@)) =~~= (r0
                    + seq![name@]) + filtered_spec(suf.drop_first(), input@));
            }
        } else {
            proof {
                assert(filtered_spec(suf, input@) == filtered_spec(suf.drop_first(), input@));
            }
        }
        i = i + 1;
    }
    proof {
        assert(names.deep_view().skip(n as int) =~= Seq::<Seq<char>>::empty());
        assert(r.deep_view() + Seq::<Seq<char>>::empty() =~~= r.deep_view());
    }
    r
}

/// The selection index after one Tab press: with candidates present it
/// starts at the first and then advances cyclically; with none it is left
/// alone.
pub open spec fn cycled_index(current: Option<int>, count: int) -> Option<int> {
    if count == 0 {
        current
    } else {
        match current {
            Option::None => Some(0),
            Option::Some(i) => Some((i + 1) % count),
        }
    }
}

pub fn cycle_index(current: Option<usize>, count: usize) -> (r: Option<usize>)
    ensures
        ({
            let cur = match current {
                Option::None => Option::<int>::None,
                Option::Some(i) => Option::Some(i as int),
            };
            let res = match r {
                Option::None => Option::<int>::None,
                Option::Some(i) => Option::Some(i as int),
            };
            res == cycled_index(cur, count as int)
        }),
{
    if count == 0 {
        current
    } else {
        match current {
            Option::None => Some(0),
            Option::Some(i) => {
                let j = i % count;
                let next = if j + 1 == count {
                    0
                } else {
                    j + 1
                };
                proof {
                    let c = count as int;
                    vstd::arithmetic::div_mod::lemma_mod_bound(i as int, c);
                    vstd::arithmetic::div_mod::lemma_add_mod_noop(i as int, 1int, c);
                    if count == 1 {
                        vstd::arithmetic::div_mod::lemma_mod_self_0(c);
                        vstd::arithmetic::div_mod::lemma_small_mod(0nat, 1nat);
                        assert((i as int + 1) % c == 0);
                    } else {
                        vstd::arithmetic::div_mod::lemma_small_mod(1nat, count as nat);
                        assert((i as int + 1) % c == (j + 1) % c);
                        if j + 1 == count {
                            vstd::arithmetic::div_mod::lemma_mod_self_0(c);
                        } else {
                            vstd::arithmetic::div_mod::lemma_small_mod((j + 1) as nat, count as nat);
                        }
                    }
                    assert(next == (i as int + 1) % c);
                }
                Some(next)
            },
        }
    }
}

} // verus!
