//! The inflater: the zlib decoder of `flate2`, which alone tells what
//! compressed image data holds.

use vstd::prelude::*;

verus! {

/// What a zlib stream inflates to: the bytes, or the message of the failure.
/// It is what `flate2::read::ZlibDecoder` gives when it is made on the bytes
/// `compressed` and read to its end.
pub uninterp spec fn inflated(compressed: Seq<u8>) -> Result<Seq<u8>, Seq<char>>;

/// Makes a `flate2::read::ZlibDecoder` on `compressed` and reads it to its
/// end with `read_to_end`. The decoder is new and reads nothing else, so
/// that what it gives, the bytes or the message of its error, is a function
/// of `compressed` alone and goes by the name `inflated`.
#[verifier::external_body]
pub(crate) fn inflate_all(compressed: &[u8]) -> (r: Result<Vec<u8>, String>)
    ensures
        match inflated(compressed@) {
            Ok(bytes) => r is Ok && r->Ok_0@ == bytes,
            Err(message) => r is Err && r->Err_0@ == message,
        },
{
    let mut out = Vec::new();
    match std::io::Read::read_to_end(&mut flate2::read::ZlibDecoder::new(compressed), &mut out) {
        Ok(_) => Ok(out),
        Err(e) => Err(e.to_string()),
    }
}

} // verus!
