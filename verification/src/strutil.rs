//! Small helpers on strings and string sequences that the rest of the
//! library builds on: appending one character to a `String`, comparing
//! strings by content, and the view of a sequence of strings.

use vstd::prelude::*;

verus! {

/// The views of a sequence of strings, element by element.
pub open spec fn views(ts: Seq<String>) -> Seq<Seq<char>> {
    ts.map_values(|t: String| t@)
}

/// The view of an optional string.
pub open spec fn opt_view(o: Option<String>) -> Option<Seq<char>> {
    match o {
        Some(s) => Some(s@),
        None => None,
    }
}

/// Relies on `String::push`: appends the given character to the end of the
/// string.
#[verifier::external_body]
pub(crate) fn push_char(s: &mut String, c: char)
    ensures
        final(s)@ == old(s)@.push(c),
{
    s.push(c);
}

/// Content equality of a `String` against a `&str`.
pub fn string_eq_str(s: &String, t: &str) -> (r: bool)
    ensures
        r == (s@ == t@),
{
    let ts = String::from_str(t);
    s.eq(&ts)
}

/// Content equality of two `&str` values.
pub fn str_eq(s: &str, t: &str) -> (r: bool)
    ensures
        r == (s@ == t@),
{
    let ss = String::from_str(s);
    let ts = String::from_str(t);
    ss.eq(&ts)
}

pub proof fn lemma_views_push(ts: Seq<String>, t: String)
    ensures
        views(ts.push(t)) =~= views(ts).push(t@),
{
}

} // verus!
