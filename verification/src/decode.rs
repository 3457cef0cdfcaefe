use vstd::prelude::*;

verus! {

/// The text that lossy UTF-8 decoding assigns to a byte sequence. The
/// decoding is a pure function of the bytes; what it returns on invalid
/// sequences is not spelled out here, only named.
pub uninterp spec fn lossy_of(bytes: Seq<u8>) -> Seq<char>;

/// Relies on `String::from_utf8_lossy`: the result depends on the bytes
/// alone; valid UTF-8 is decoded unchanged and invalid sequences become
/// replacement characters. In particular a chunk of plain ASCII bytes
/// (values below 128) decodes to exactly those characters.
#[verifier::external_body]
pub(crate) fn lossy_decode(bytes: &[u8]) -> (r: String)
    ensures
        r@ == lossy_of(bytes@),
        (forall|i: int| 0 <= i < bytes@.len() ==> bytes@[i] < 128) ==> r@ == bytes@.map_values(
            |b: u8| b as char,
        ),
{
    String::from_utf8_lossy(bytes).into_owned()
}

} // verus!
