//! Small text helpers shared by the runtime.

use vstd::prelude::*;

verus! {

/// Relies on String::push: appends the given character to the end of
/// the string.
#[verifier::external_body]
pub fn string_push(s: &mut String, c: char)
    ensures
        final(s)@ == old(s)@.push(c),
{
    s.push(c)
}

} // verus!
