//! Building text one character at a time.

use vstd::prelude::*;

verus! {

/// `String::push` of the standard library: appends one character to the end
/// of the text. Nothing here is proved; the contract says what the standard
/// library documents.
#[verifier::external_body]
pub(crate) fn push_char(text: &mut String, c: char)
    ensures
        final(text)@ == old(text)@.push(c),
{
    text.push(c)
}

} // verus!
