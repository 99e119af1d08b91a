//! Conversions between `String`/`&str` and `Vec<char>`.
//!
//! The engine manipulates text as vectors of characters so that every
//! operation is position-exact; these helpers cross between that form and
//! the standard string types at the API boundary.

use vstd::prelude::*;

verus! {

/// Relies on str::chars: iterating a `&str` yields exactly the characters
/// of its view, in order.
#[verifier::external_body]
pub fn chars_of_str(s: &str) -> (r: Vec<char>)
    ensures
        r@ == s@,
{
    s.chars().collect()
}

/// Relies on the `FromIterator<char>` impl of `String`: collecting characters
/// builds the string with exactly those characters, in order.
#[verifier::external_body]
pub fn string_of_chars(v: &Vec<char>) -> (r: String)
    ensures
        r@ == v@,
{
    v.iter().collect()
}

/// The placeholder text produced when a variable lookup fails.
pub fn undefined_marker() -> (r: Vec<char>)
    ensures
        r@ == "UNDEFINED"@,
{
    chars_of_str("UNDEFINED")
}

} // verus!
