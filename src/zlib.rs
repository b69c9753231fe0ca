//! The four zlib streams of a Tight session, each an inflate context whose
//! history carries over from one rectangle to the next.
use vstd::prelude::*;
use std::io::Write;

verus! {

/// One zlib stream. Verus cannot declare flate2's decoder type (its
/// generic parameter is bound by `std::io::Write`), so the stream is opaque.
#[verifier::external_body]
pub struct ZlibStream {
    zlib: flate2::write::ZlibDecoder<Vec<u8>>,
}

impl ZlibStream {
    /// Relies on `flate2::write::ZlibDecoder::new`: a fresh inflate
    /// context that writes into an empty buffer.
    #[verifier::external_body]
    pub fn new() -> (r: Self) {
        ZlibStream { zlib: flate2::write::ZlibDecoder::new(Vec::new()) }
    }

    /// Relies on `flate2::write::ZlibDecoder::reset`: finishes the current
    /// stream and starts a fresh one; false when finishing fails.
    #[verifier::external_body]
    pub fn reset(&mut self) -> (r: bool) {
        self.zlib.reset(Vec::new()).is_ok()
    }

    /// Relies on `flate2::write::ZlibDecoder`'s `Write` impl: inflates
    /// `input` against the stream's history and hands out what came out.
    /// That depends on the history, so nothing is stated of it.
    #[verifier::external_body]
    pub fn decode(&mut self, input: &[u8]) -> (r: Option<Vec<u8>>) {
        self.zlib.get_mut().clear();
        match self.zlib.write_all(input).and_then(|_| self.zlib.flush()) {
            Ok(()) => Some(self.zlib.get_mut().clone()),
            Err(_) => None,
        }
    }
}

} // verus!
