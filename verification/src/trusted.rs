//! The one boundary to std that vstd gives no specification for.

use vstd::prelude::*;

verus! {

/// Relies on `String::push`: appends the one given character to the end of
/// the string.
#[verifier::external_body]
pub(crate) fn push_char(s: &mut String, c: char)
    ensures
        final(s)@ == old(s)@.push(c),
{
    s.push(c)
}

} // verus!
