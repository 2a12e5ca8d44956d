//! What an operation reports: a value, or a message.
use vstd::prelude::*;

verus! {

/// The text of a message, where there is one.
pub open spec fn text(message: Option<String>) -> Option<Seq<char>> {
    match message {
        Some(m) => Some(m@),
        None => None,
    }
}

/// A message of its own, from a literal.
pub fn message(m: &str) -> (r: Option<String>)
    ensures
        text(r) == Some(m@),
{
    Some(m.to_owned())
}

/// `detail` behind the words that say where it comes from.
pub fn prefixed(words: &str, detail: &str) -> (r: String)
    ensures
        r@ == words@ + detail@,
{
    let mut r: String = words.to_owned();
    r.append(detail);
    r
}

} // verus!
