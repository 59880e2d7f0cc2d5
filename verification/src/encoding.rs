//! Base64 text for binary payloads.

use vstd::prelude::*;

verus! {

/// The standard padded base64 text of a payload.
pub uninterp spec fn base64_text(payload: Seq<u8>) -> Seq<char>;

/// The number of characters of the padded base64 text of `n` bytes.
pub open spec fn base64_length(n: nat) -> nat {
    4 * ((n + 2) / 3)
}

/// Calls `base64::encode`, which encodes with the standard alphabet and
/// padding. The contract names its result and gives its length: four
/// characters for every three bytes begun. It leaves out payloads whose
/// encoded text would not fit in memory, on which `encode` panics.
#[verifier::external_body]
pub(crate) fn encode_base64(payload: &[u8]) -> (encoded: String)
    requires
        base64_length(payload@.len()) <= isize::MAX,
    ensures
        encoded@ == base64_text(payload@),
        encoded@.len() == base64_length(payload@.len()),
{
    base64::encode(payload)
}

} // verus!
