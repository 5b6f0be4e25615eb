//! Building blocks of emitted source text.

use vstd::prelude::*;
use vstd::string::*;

verus! {

/// The source text of the string literal whose value is `value`: the value
/// between double quotes, escaped where the language asks for it.
pub uninterp spec fn string_literal(value: Seq<char>) -> Seq<char>;

/// `proc_macro2::Literal::string`, printed with the literal's `to_string`:
/// the source text of a string literal with the given value. The quoting and
/// escaping are the outside crate's and are not proved here; the contract
/// only gives the result its name, [`string_literal`], which says that the
/// text depends on the value alone.
///
/// The outside crate has two implementations of the call, its own and the
/// compiler's, and takes the compiler's inside a procedural-macro
/// invocation. So that the text is the same in every process, its own is
/// forced for the call (`proc_macro2::fallback::force`) and the choice is
/// handed back afterwards (`proc_macro2::fallback::unforce`).
#[verifier::external_body]
pub(crate) fn literal_string(value: &str) -> (tokens: String)
    ensures
        tokens@ == string_literal(value@),
{
    proc_macro2::fallback::force();
    let tokens = proc_macro2::Literal::string(value).to_string();
    proc_macro2::fallback::unforce();
    tokens
}

/// The text that `part` gives for each of `items`, one after the other.
pub open spec fn concat_map<A>(items: Seq<A>, part: spec_fn(A) -> Seq<char>) -> Seq<char>
    decreases items.len(),
{
    if items.len() == 0 {
        Seq::empty()
    } else {
        concat_map(items.drop_last(), part) + part(items.last())
    }
}

/// The text that `part` gives for each of `items`, with `separator` between
/// one and the next.
pub open spec fn join_map<A>(
    items: Seq<A>,
    part: spec_fn(A) -> Seq<char>,
    separator: Seq<char>,
) -> Seq<char>
    decreases items.len(),
{
    if items.len() == 0 {
        Seq::empty()
    } else if items.len() == 1 {
        part(items[0])
    } else {
        join_map(items.drop_last(), part, separator) + separator + part(items.last())
    }
}

/// One more item adds its part at the end.
pub proof fn lemma_concat_map_step<A>(items: Seq<A>, part: spec_fn(A) -> Seq<char>, i: int)
    requires
        0 <= i < items.len(),
    ensures
        concat_map(items.take(i + 1), part) == concat_map(items.take(i), part) + part(items[i]),
        concat_map(items.take(0), part) == Seq::<char>::empty(),
        concat_map(items.take(items.len() as int), part) == concat_map(items, part),
{
    assert(items.take(i + 1).drop_last() =~= items.take(i));
    assert(items.take(items.len() as int) =~= items);
}

/// One more item adds its part at the end, behind a separator unless it is
/// the first.
pub proof fn lemma_join_map_step<A>(
    items: Seq<A>,
    part: spec_fn(A) -> Seq<char>,
    separator: Seq<char>,
    i: int,
)
    requires
        0 <= i < items.len(),
    ensures
        join_map(items.take(i + 1), part, separator) == if i == 0 {
            part(items[0])
        } else {
            join_map(items.take(i), part, separator) + separator + part(items[i])
        },
        join_map(items.take(items.len() as int), part, separator) == join_map(
            items,
            part,
            separator,
        ),
{
    assert(items.take(i + 1).drop_last() =~= items.take(i));
    assert(items.take(items.len() as int) =~= items);
}

/// Whether two pieces of text are the same.
pub fn same_text(a: &str, b: &str) -> (same: bool)
    ensures
        same == (a@ == b@),
{
    String::from_str(a) == String::from_str(b)
}

/// Two pieces of text, one after the other.
pub(crate) fn join2(a: &str, b: &str) -> (text: String)
    ensures
        text@ == a@ + b@,
{
    String::from_str(a).concat(b)
}

/// Three pieces of text, one after the other.
pub(crate) fn join3(a: &str, b: &str, c: &str) -> (text: String)
    ensures
        text@ == a@ + b@ + c@,
{
    String::from_str(a).concat(b).concat(c)
}

/// Four pieces of text, one after the other.
pub(crate) fn join4(a: &str, b: &str, c: &str, d: &str) -> (text: String)
    ensures
        text@ == a@ + b@ + c@ + d@,
{
    String::from_str(a).concat(b).concat(c).concat(d)
}

/// Five pieces of text, one after the other.
pub(crate) fn join5(a: &str, b: &str, c: &str, d: &str, e: &str) -> (text: String)
    ensures
        text@ == a@ + b@ + c@ + d@ + e@,
{
    String::from_str(a).concat(b).concat(c).concat(d).concat(e)
}

/// Six pieces of text, one after the other.
pub(crate) fn join6(a: &str, b: &str, c: &str, d: &str, e: &str, f: &str) -> (text: String)
    ensures
        text@ == a@ + b@ + c@ + d@ + e@ + f@,
{
    String::from_str(a).concat(b).concat(c).concat(d).concat(e).concat(f)
}

/// Seven pieces of text, one after the other.
pub(crate) fn join7(a: &str, b: &str, c: &str, d: &str, e: &str, f: &str, g: &str) -> (text:
    String)
    ensures
        text@ == a@ + b@ + c@ + d@ + e@ + f@ + g@,
{
    String::from_str(a).concat(b).concat(c).concat(d).concat(e).concat(f).concat(g)
}

} // verus!
