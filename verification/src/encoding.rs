//! Binary state as text.

use vstd::prelude::*;

verus! {

/// The base64 text of bytes, in the standard alphabet with padding, as the
/// `base64` crate writes it.
pub uninterp spec fn base64_of(bytes: Seq<u8>) -> Seq<char>;

/// Calls `Engine::encode` of `base64::engine::general_purpose::STANDARD`.
/// The call fails on inputs whose encoded length does not fit the machine's
/// word; they are left out.
#[verifier::external_body]
pub(crate) fn base64_standard(bytes: &[u8]) -> (r: String)
    requires
        bytes@.len() <= usize::MAX / 2,
    ensures
        r@ == base64_of(bytes@),
{
    base64::Engine::encode(&base64::engine::general_purpose::STANDARD, bytes)
}

/// The base64 text of bytes, or `None` for an input so long that its text
/// would not fit the machine's word.
pub fn to_base64(bytes: &[u8]) -> (r: Option<String>)
    ensures
        match r {
            Some(s) => bytes@.len() <= usize::MAX / 2 && s@ == base64_of(bytes@),
            None => bytes@.len() > usize::MAX / 2,
        },
{
    if bytes.len() > usize::MAX / 2 {
        None
    } else {
        Some(base64_standard(bytes))
    }
}

} // verus!
