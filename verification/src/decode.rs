//! Text from the bytes that a command wrote.

use vstd::prelude::*;

verus! {

/// The text that `bytes` hold as UTF-8, with the replacement character
/// U+FFFD in the place of each stretch of bytes that is no UTF-8, as
/// `String::from_utf8_lossy` decodes it.
pub uninterp spec fn lossy(bytes: Seq<u8>) -> Seq<char>;

/// The text that `bytes` hold.
///
/// Calls `String::from_utf8_lossy` and copies the text where the call lent
/// it. The contract gives the result its name and claims nothing more of it.
#[verifier::external_body]
pub(crate) fn lossy_text(bytes: &Vec<u8>) -> (out: String)
    ensures
        out@ == lossy(bytes@),
{
    String::from_utf8_lossy(bytes).into_owned()
}

} // verus!
