//! Names derived from the name of a memoized function.

use vstd::prelude::*;
use vstd::string::*;

verus! {

/// The upper-case mapping of one character, as `char::to_uppercase` yields it.
pub uninterp spec fn uppercase_of(c: char) -> Seq<char>;

/// Calls `char::to_uppercase` and collects the characters it yields.
/// Trusted: the result is the upper-case mapping of `c`, which std defines
/// from the Unicode tables and which depends on `c` alone.
#[verifier::external_body]
fn to_uppercase(c: char) -> (upper: Vec<char>)
    ensures
        upper@ == uppercase_of(c),
{
    c.to_uppercase().collect()
}

/// Calls `String::push`. Trusted: the character is appended at the end.
#[verifier::external_body]
fn push_char(s: &mut String, c: char)
    ensures
        final(s)@ == old(s)@.push(c),
{
    s.push(c)
}

/// Upper camel case of the part `s` of an underscore-separated name.
/// `word_start` says whether the next character begins a word.
pub open spec fn camel_from(s: Seq<char>, word_start: bool) -> Seq<char>
    decreases s.len(),
{
    if s.len() == 0 {
        Seq::empty()
    } else if s[0] == '_' {
        camel_from(s.drop_first(), true)
    } else if word_start {
        uppercase_of(s[0]) + camel_from(s.drop_first(), false)
    } else {
        seq![s[0]] + camel_from(s.drop_first(), false)
    }
}

/// Upper camel case of an underscore-separated name: the underscores go,
/// and the first character of every word is replaced by its upper-case mapping.
pub open spec fn upper_camel_case(s: Seq<char>) -> Seq<char> {
    camel_from(s, true)
}

proof fn lemma_camel_step(s: Seq<char>, i: int, word_start: bool)
    requires
        0 <= i < s.len(),
    ensures
        camel_from(s.subrange(i, s.len() as int), word_start) == if s[i] == '_' {
            camel_from(s.subrange(i + 1, s.len() as int), true)
        } else if word_start {
            uppercase_of(s[i]) + camel_from(s.subrange(i + 1, s.len() as int), false)
        } else {
            seq![s[i]] + camel_from(s.subrange(i + 1, s.len() as int), false)
        },
{
    let t = s.subrange(i, s.len() as int);
    assert(t.drop_first() =~= s.subrange(i + 1, s.len() as int));
}

/// Converts an underscore-separated name to upper camel case.
pub fn to_upper_camel_case(s: &str) -> (out: String)
    ensures
        out@ == upper_camel_case(s@),
{
    let n: usize = s.unicode_len();
    let mut out = String::new();
    let mut word_start = true;
    let mut i: usize = 0;
    assert(s@.subrange(0, s@.len() as int) =~= s@);
    while i < n
        invariant
            n == s@.len(),
            i <= n,
            out@ + camel_from(s@.subrange(i as int, n as int), word_start) == upper_camel_case(s@),
        decreases n - i,
    {
        let c = s.get_char(i);
        proof {
            lemma_camel_step(s@, i as int, word_start);
        }
        if c == '_' {
            word_start = true;
        } else if word_start {
            let upper = to_uppercase(c);
            let ghost before = out@;
            let mut j: usize = 0;
            while j < upper.len()
                invariant
                    j <= upper.len(),
                    out@ == before + upper@.subrange(0, j as int),
                decreases upper.len() - j,
            {
                push_char(&mut out, upper[j]);
                assert(upper@.subrange(0, j + 1) =~= upper@.subrange(0, j as int).push(upper@[j as int]));
                j += 1;
            }
            assert(upper@.subrange(0, upper@.len() as int) =~= upper@);
            assert((before + upper@) + camel_from(s@.subrange(i + 1, n as int), false)
                =~= before + (upper@ + camel_from(s@.subrange(i + 1, n as int), false)));
            word_start = false;
        } else {
            let ghost before = out@;
            push_char(&mut out, c);
            assert(before.push(c) + camel_from(s@.subrange(i + 1, n as int), false)
                =~= before + (seq![c] + camel_from(s@.subrange(i + 1, n as int), false)));
        }
        i += 1;
    }
    out
}

/// The name of the reference key type of a function: `RefKey` followed by the
/// function's name in upper camel case.
pub open spec fn ref_key_name_of(fn_name: Seq<char>) -> Seq<char> {
    "RefKey"@ + upper_camel_case(fn_name)
}

/// Names the reference key type of a function, so that the types of two functions
/// do not collide.
pub fn ref_key_name(fn_name: &str) -> (name: String)
    ensures
        name@ == ref_key_name_of(fn_name@),
{
    let camel = to_upper_camel_case(fn_name);
    String::from_str("RefKey").concat(camel.as_str())
}

} // verus!
