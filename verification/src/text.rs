//! Small operations on strings that the parser and the error messages need.
use vstd::prelude::*;

use crate::model::{first_position, lemma_first_position_is, lemma_first_position_none};

verus! {

broadcast use vstd::string::group_string_axioms;

// The text that Rust's `Debug` formatting gives a string: the string in double
// quotes, with quotes, backslashes and non-printable characters escaped.
pub uninterp spec fn debug_text(s: Seq<char>) -> Seq<char>;

/// `format!("{:?}", s)` on a `&str`; the result is named by `debug_text` of the
/// string's characters (the escaping rules, which rest on Unicode tables, are
/// left unstated).
#[verifier::external_body]
pub(crate) fn debug_quote(s: &str) -> (r: String)
    ensures
        r@ == debug_text(s@),
{
    format!("{:?}", s)
}

/// `String::push`: appends one character.
#[verifier::external_body]
pub(crate) fn push_char(s: &mut String, c: char)
    ensures
        final(s)@ == old(s)@.push(c),
{
    s.push(c)
}

/// A new `String` holding the characters of `s` from position `from` on.
pub(crate) fn suffix_from(s: &str, from: usize) -> (r: String)
    requires
        from <= s@.len(),
    ensures
        r@ == s@.skip(from as int),
{
    let n = s.unicode_len();
    let part = s.substring_char(from, n);
    String::from_str(part)
}

/// A new `String` holding the first `to` characters of `s`.
pub(crate) fn prefix_to(s: &str, to: usize) -> (r: String)
    requires
        to <= s@.len(),
    ensures
        r@ == s@.take(to as int),
{
    let part = s.substring_char(0, to);
    String::from_str(part)
}

/// The text `-c` of a short option.
pub(crate) fn short_option_text(c: char) -> (r: String)
    ensures
        r@ == seq!['-', c],
{
    let mut s = String::new();
    push_char(&mut s, '-');
    push_char(&mut s, c);
    s
}

/// The position of the first occurrence of `c` in `s`, if any.
pub(crate) fn find_char(s: &str, c: char) -> (r: Option<usize>)
    ensures
        match r {
            Some(i) => first_position(s@, c) == Some(i as int),
            None => first_position(s@, c) is None,
        },
{
    let n = s.unicode_len();
    let mut i: usize = 0;
    for x in it: s.chars()
        invariant
            i == it.index(),
            it.seq() == s@,
            n == s@.len(),
            forall|j: int| 0 <= j < i ==> s@[j] != c,
    {
        if x == c {
            proof {
                lemma_first_position_is(s@, c, i as int);
            }
            return Some(i);
        }
        i = i + 1;
    }
    proof {
        lemma_first_position_none(s@, c);
    }
    None
}

/// Whether `s` is exactly `--`.
pub(crate) fn is_dashes(s: &str) -> (r: bool)
    ensures
        r == (s@ == seq!['-', '-']),
{
    let n = s.unicode_len();
    if n == 2 && s.get_char(0) == '-' && s.get_char(1) == '-' {
        assert(s@ =~= seq!['-', '-']);
        true
    } else {
        false
    }
}

} // verus!
