use vstd::prelude::*;
use vstd::utf8::{decode_utf8, encode_utf8, valid_utf8};

verus! {

/// What `String::from_utf8_lossy` makes of `bytes`: their UTF-8 decoding,
/// with each invalid sequence replaced by U+FFFD.
pub uninterp spec fn lossy_utf8(bytes: Seq<u8>) -> Seq<char>;

/// Calls `String::from_utf8_lossy` and takes ownership of the result.
/// Its documentation promises that valid UTF-8 comes back decoded as it is,
/// and that each invalid sequence (at least one byte) becomes one U+FFFD, so
/// there are never more characters than bytes, and the result's UTF-8 takes
/// at most three bytes per input byte (U+FFFD takes three); what exactly
/// replaces what is left to the name `lossy_utf8`.
#[verifier::external_body]
pub(crate) fn decode_lossy(bytes: &[u8]) -> (s: String)
    ensures
        s@ == lossy_utf8(bytes@),
        valid_utf8(bytes@) ==> s@ == decode_utf8(bytes@),
        s@.len() <= bytes@.len(),
        encode_utf8(s@).len() <= 3 * bytes@.len(),
{
    String::from_utf8_lossy(bytes).into_owned()
}

} // verus!
