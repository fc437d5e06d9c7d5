//! Character-level helpers for reading G-code text.
use vstd::prelude::*;
use vstd::string::*;
use crate::number::{all_digits, digit_values, digits_value};

verus! {

/// Characters with the Unicode `White_Space` property, which is what
/// `str::trim` removes.
pub open spec fn is_white_space(c: char) -> bool {
    let u = c as u32;
    ||| 0x9 <= u <= 0xD
    ||| u == 0x20
    ||| u == 0x85
    ||| u == 0xA0
    ||| u == 0x1680
    ||| 0x2000 <= u <= 0x200A
    ||| u == 0x2028
    ||| u == 0x2029
    ||| u == 0x202F
    ||| u == 0x205F
    ||| u == 0x3000
}

/// Number of white-space characters at the start of `s`.
pub open spec fn leading_white(s: Seq<char>) -> nat
    decreases s.len(),
{
    if s.len() > 0 && is_white_space(s[0]) {
        1 + leading_white(s.drop_first())
    } else {
        0
    }
}

/// Number of white-space characters at the end of `s`.
pub open spec fn trailing_white(s: Seq<char>) -> nat
    decreases s.len(),
{
    if s.len() > 0 && is_white_space(s.last()) {
        1 + trailing_white(s.drop_last())
    } else {
        0
    }
}

/// `s` without its leading and trailing white space.
pub open spec fn spec_trim(s: Seq<char>) -> Seq<char> {
    let a = leading_white(s);
    if a >= s.len() {
        Seq::empty()
    } else {
        s.subrange(a as int, s.len() - trailing_white(s))
    }
}

/// `str::trim`: the text without leading and trailing white space.
#[verifier::external_body]
pub(crate) fn trim(s: &str) -> (r: &str)
    ensures
        r@ == spec_trim(s@),
{
    s.trim()
}

/// The `u64` that `s` spells in the syntax of `u64::from_str`: an optional
/// `+`, then at least one decimal digit, the value fitting in 64 bits.
pub open spec fn spec_parse_u64(s: Seq<char>) -> Option<u64> {
    let d = if s.len() > 0 && s[0] == '+' {
        s.skip(1)
    } else {
        s
    };
    if d.len() > 0 && all_digits(d) && digits_value(digit_values(d)) <= u64::MAX {
        Some(digits_value(digit_values(d)) as u64)
    } else {
        None
    }
}

/// `str::parse::<u64>`.
#[verifier::external_body]
pub(crate) fn parse_u64(s: &str) -> (r: Option<u64>)
    ensures
        r == spec_parse_u64(s@),
{
    s.parse::<u64>().ok()
}

pub open spec fn is_ascii_char(c: char) -> bool {
    (c as u32) < 128
}

/// The upper-case form of an ASCII letter; other characters are unchanged.
pub open spec fn spec_ascii_upper(c: char) -> char {
    if 'a' <= c && c <= 'z' {
        ((c as u32) - 32) as char
    } else {
        c
    }
}

/// `char::to_ascii_uppercase`.
#[verifier::external_body]
pub(crate) fn ascii_upper(c: char) -> (r: char)
    ensures
        r == spec_ascii_upper(c),
{
    c.to_ascii_uppercase()
}

/// The words of `s` separated by single spaces, as `str::split(' ')` yields
/// them: there is always at least one word, and two adjacent spaces make
/// an empty word between them.
pub open spec fn split_words(s: Seq<char>) -> Seq<Seq<char>>
    decreases s.len(),
{
    if s.len() == 0 {
        seq![Seq::<char>::empty()]
    } else {
        let w = split_words(s.drop_last());
        if s.last() == ' ' {
            w.push(Seq::<char>::empty())
        } else {
            w.update(w.len() - 1, w.last().push(s.last()))
        }
    }
}

pub proof fn lemma_split_words_nonempty(s: Seq<char>)
    ensures
        split_words(s).len() >= 1,
    decreases s.len(),
{
    if s.len() > 0 {
        lemma_split_words_nonempty(s.drop_last());
    }
}

/// Adding characters never removes words.
pub proof fn lemma_split_words_grow(s: Seq<char>, i: int)
    requires
        0 <= i <= s.len(),
    ensures
        split_words(s.take(i)).len() <= split_words(s).len(),
    decreases s.len() - i,
{
    if i < s.len() {
        lemma_split_words_grow(s, i + 1);
        assert(s.take(i + 1).drop_last() =~= s.take(i));
        lemma_split_words_nonempty(s.take(i));
    } else {
        assert(s.take(i) =~= s);
    }
}

} // verus!
