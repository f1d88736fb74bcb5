//! Streaming gzip compression of a response body, through flate2. The
//! compressor state is per-stream and never shared across requests: each
//! pulled chunk is pushed through it, and the trailer comes with
//! `finish`. The compressed bytes depend on flate2's internals, so
//! nothing is claimed of them; what the pipeline guarantees instead is
//! that compression is never combined with a byte range.

use vstd::prelude::*;
use std::io::Write;

verus! {

/// A streaming compression transform over a chunked body. The field is a
/// flate2 `write::GzEncoder<Vec<u8>>`; Verus refuses that type's
/// declaration, so the whole struct stands behind trusted methods.
#[verifier::external_body]
pub struct CompressionEncoder {
    enc: flate2::write::GzEncoder<Vec<u8>>,
}

impl CompressionEncoder {
    /// Relies on flate2's `write::GzEncoder::new`: a fresh compressor at
    /// the given level, writing into an empty buffer.
    #[verifier::external_body]
    pub fn new(level: u8) -> CompressionEncoder
        requires
            1 <= level <= 9,
    {
        CompressionEncoder {
            enc: flate2::write::GzEncoder::new(Vec::new(), flate2::Compression::new(level as u32)),
        }
    }

    /// Relies on `Write::write_all` for `GzEncoder` and on `get_mut`,
    /// whose documentation allows taking the buffer to forward the
    /// stream incrementally: feed one chunk, hand out whatever
    /// compressed bytes are ready (possibly none while the compressor
    /// buffers). Writing into a `Vec` cannot fail.
    #[verifier::external_body]
    pub fn push(&mut self, data: &[u8]) -> (r: Vec<u8>) {
        let _ = self.enc.write_all(data);
        std::mem::take(self.enc.get_mut())
    }

    /// Relies on `GzEncoder::finish`: flush the stream and hand back the
    /// remaining output, ending in the gzip trailer. Writing into a
    /// `Vec` cannot fail.
    #[verifier::external_body]
    pub fn finish(self) -> (r: Vec<u8>) {
        match self.enc.finish() {
            Ok(buf) => buf,
            Err(_) => Vec::new(),
        }
    }
}

} // verus!
