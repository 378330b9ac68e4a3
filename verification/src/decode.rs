//! Decoding of the raw manuscript bytes into text. The character encoding is
//! sniffed statistically from the whole buffer and the buffer is then decoded
//! lossily, so every byte input yields a text.
use vstd::prelude::*;

verus! {

/// The text that the detected encoding yields for `bytes`: the encoding is
/// guessed from the bytes alone, so the decoded text is a function of them.
pub uninterp spec fn decoded_of(bytes: Seq<u8>) -> Seq<char>;

/// Relies on chardetng's `EncodingDetector` (fed the whole buffer once with
/// end-of-data signalled, guessed with no domain hint and UTF-8 allowed) and
/// on `encoding_rs::Encoding::decode`, which replaces malformed sequences
/// with the replacement character and never fails. Both steps depend on the
/// bytes alone, and an empty buffer decodes to the empty string.
#[verifier::external_body]
pub(crate) fn decode_chars(bytes: &[u8]) -> (r: Vec<char>)
    ensures
        r@ == decoded_of(bytes@),
        bytes@.len() == 0 ==> r@.len() == 0,
{
    let mut detector = chardetng::EncodingDetector::new(chardetng::Iso2022JpDetection::Allow);
    detector.feed(bytes, true);
    let encoding = detector.guess(None, chardetng::Utf8Detection::Allow);
    let (decoded, _, _) = encoding.decode(bytes);
    decoded.chars().collect()
}

/// Relies on `String`'s `FromIterator<char>`: collecting characters yields
/// the string of exactly those characters in order.
#[verifier::external_body]
pub(crate) fn chars_to_string(v: &Vec<char>) -> (r: String)
    ensures
        r@ == v@,
{
    v.iter().collect()
}

} // verus!
