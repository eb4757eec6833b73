use vstd::prelude::*;

verus! {

/// The text that `simd_cesu8::mutf8::decode` gives for `bytes`, or `None`
/// where it reports the bytes as invalid.
pub uninterp spec fn spec_mutf8_decode(bytes: Seq<u8>) -> Option<Seq<char>>;

/// Whether every byte is below 0x80.
pub open spec fn all_ascii(bytes: Seq<u8>) -> bool {
    forall|i: int| 0 <= i < bytes.len() ==> bytes[i] < 128
}

/// The characters of ASCII bytes, one per byte.
pub open spec fn ascii_chars(bytes: Seq<u8>) -> Seq<char> {
    Seq::new(bytes.len(), |i: int| bytes[i] as char)
}

/// Decodes modified UTF-8 with `simd_cesu8::mutf8::decode`.
///
/// Trusted: the result is the one named by `spec_mutf8_decode`, and bytes
/// that are all ASCII decode to themselves (the crate first tries
/// `simdutf8`'s UTF-8 check, which every ASCII input passes, and then
/// returns the input unchanged). The crate panics only when the output
/// would exceed `isize::MAX` bytes, which the length bound rules out.
#[verifier::external_body]
pub(crate) fn mutf8_decode(bytes: &[u8]) -> (r: Option<String>)
    requires
        bytes@.len() <= 65535,
    ensures
        r is Some == spec_mutf8_decode(bytes@) is Some,
        r matches Some(s) ==> s@ == spec_mutf8_decode(bytes@)->Some_0,
        all_ascii(bytes@) ==> r is Some && r->Some_0@ == ascii_chars(bytes@),
{
    match simd_cesu8::mutf8::decode(bytes) {
        Ok(s) => Some(s.into_owned()),
        Err(_) => None,
    }
}

} // verus!
