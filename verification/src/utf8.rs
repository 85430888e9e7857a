//! UTF-8 byte decoding used by the key and event decoders.

use vstd::prelude::*;
use vstd::string::*;
use vstd::utf8::*;

verus! {

/// Characters that `String::from_utf8_lossy` produces for `bytes`: the
/// decoded text, with each maximal invalid subsequence replaced by U+FFFD.
pub uninterp spec fn utf8_lossy(bytes: Seq<u8>) -> Seq<char>;

/// Wraps `core::str::from_utf8`: `Some` exactly when `bytes` is valid UTF-8
/// (no overlong forms, no surrogates, nothing above U+10FFFF), and then the
/// returned `str` is made of exactly those bytes.
#[verifier::external_body]
pub fn str_from_utf8(bytes: &[u8]) -> (r: Option<&str>)
    ensures
        r is Some <==> valid_utf8(bytes@),
        r matches Some(s) ==> s.spec_bytes() == bytes@,
{
    core::str::from_utf8(bytes).ok()
}

/// Wraps `String::from_utf8_lossy(..).into_owned()`. The result is named by
/// `utf8_lossy`; when the input is valid UTF-8 it is the decoded text
/// unchanged, as the documentation of `from_utf8_lossy` states; input
/// that is not empty gives text that is not empty (every invalid sequence
/// becomes U+FFFD, nothing is dropped). Which characters invalid input
/// gives is left to the name.
#[verifier::external_body]
pub fn lossy_string(bytes: &[u8]) -> (s: String)
    ensures
        s@ == utf8_lossy(bytes@),
        valid_utf8(bytes@) ==> s@ == decode_utf8(bytes@),
        bytes@.len() > 0 ==> s@.len() > 0,
{
    String::from_utf8_lossy(bytes).into_owned()
}

/// The characters of a valid UTF-8 byte sequence, as a `str` view.
pub proof fn lemma_str_view_from_bytes(s: &str, bytes: Seq<u8>)
    requires
        s.spec_bytes() == bytes,
    ensures
        valid_utf8(bytes),
        s@ == decode_utf8(bytes),
{
    encode_utf8_valid_utf8(s@);
    encode_utf8_decode_utf8(s@);
}

} // verus!
