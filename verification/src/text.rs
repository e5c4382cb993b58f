//! Building text one character at a time.

use vstd::prelude::*;

verus! {

/// Calls `String::push` of the standard library, which appends the character.
#[verifier::external_body]
pub(crate) fn push_char(text: &mut String, c: char)
    ensures
        final(text)@ == old(text)@.push(c),
{
    text.push(c);
}

} // verus!
