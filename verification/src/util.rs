//! Naming helpers shared by every generator.

use vstd::prelude::*;
use vstd::string::*;

verus! {

/// The ASCII upper-case form of `c`; every character outside `a..=z` is itself.
pub open spec fn ascii_upper(c: char) -> char {
    if 'a' <= c && c <= 'z' {
        ((c as u8) - 32) as char
    } else {
        c
    }
}

/// Whether the character at `i` starts a word: it is the first of `s`, or the
/// one before it is an underscore.
pub open spec fn starts_word(s: Seq<char>, i: int) -> bool {
    i == 0 || s[i - 1] == '_'
}

/// `s` with the first character of every word upper-cased, underscores kept.
pub open spec fn capitalized(s: Seq<char>) -> Seq<char> {
    Seq::new(s.len(), |i: int| if starts_word(s, i) { ascii_upper(s[i]) } else { s[i] })
}

/// The wire attribute name of a field: every underscore-delimited word
/// capitalised, the underscores removed.
pub open spec fn pascal_case(s: Seq<char>) -> Seq<char> {
    capitalized(s).filter(|c: char| c != '_')
}

/// What is left of `s` between a leading and a trailing double quote, if it
/// has both.
pub open spec fn unquoted(s: Seq<char>) -> Option<Seq<char>> {
    if s.len() >= 2 && s[0] == '"' && s[s.len() - 1] == '"' {
        Some(s.subrange(1, s.len() - 1))
    } else {
        None
    }
}

/// `items` run through `step` from left to right, each on the state that the
/// one before left; the first failure ends the run and is its result.
pub open spec fn try_fold<S, A, E>(state: S, items: Seq<A>, step: spec_fn(S, A) -> Result<S, E>)
    -> Result<S, E>
    decreases items.len(),
{
    if items.len() == 0 {
        Ok(state)
    } else {
        match step(state, items[0]) {
            Err(e) => Err(e),
            Ok(next) => try_fold(next, items.drop_first(), step),
        }
    }
}

/// `String::push` of the standard library: the character is appended to the
/// end of the string, which is otherwise as it was. Taken on trust from the
/// documentation of the method.
pub assume_specification[ String::push ](s: &mut String, ch: char)
    ensures
        final(s)@ == old(s)@.push(ch),
;

/// The ASCII upper-case form of a character.
fn to_ascii_upper(c: char) -> (r: char)
    ensures
        r == ascii_upper(c),
{
    if 'a' <= c && c <= 'z' {
        ((c as u8) - 32) as char
    } else {
        c
    }
}

/// Renders a name into the case of wire attribute names: every word that
/// underscores delimit is capitalised, and the underscores go.
pub fn to_pascal_case(val: &str) -> (pascal: String)
    ensures
        pascal@ == pascal_case(val@),
{
    let mut pascal = String::new();
    let mut capitalize = true;
    let n = val.unicode_len();
    let mut i: usize = 0;
    while i < n
        invariant
            n == val@.len(),
            i <= n,
            capitalize == starts_word(val@, i as int),
            pascal@ == capitalized(val@).take(i as int).filter(|c: char| c != '_'),
        decreases n - i,
    {
        let ch = val.get_char(i);
        proof {
            let cap = capitalized(val@);
            let keep = |c: char| c != '_';
            assert(cap.take(i + 1) =~= cap.take(i as int).push(cap[i as int]));
            cap.take(i as int).lemma_filter_push(cap[i as int], keep);
        }
        if ch == '_' {
            capitalize = true;
        } else if capitalize {
            pascal.push(to_ascii_upper(ch));
            capitalize = false;
        } else {
            pascal.push(ch);
        }
        i += 1;
    }
    proof {
        assert(capitalized(val@).take(n as int) =~= capitalized(val@));
    }
    pascal
}

/// Takes the double quotes off both ends of `val`; text that does not have
/// both is refused.
pub fn strip_quote_mark(val: &str) -> (inner: Option<&str>)
    ensures
        inner is Some <==> unquoted(val@) is Some,
        inner matches Some(t) ==> t@ == unquoted(val@).unwrap(),
{
    let n = val.unicode_len();
    if n >= 2 && val.get_char(0) == '"' && val.get_char(n - 1) == '"' {
        Some(val.substring_char(1, n - 1))
    } else {
        None
    }
}

} // verus!
