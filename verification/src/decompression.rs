use vstd::prelude::*;

use crate::error::Error;

verus! {

/// The plaintext that the Zstandard frame held in `chunk` decompresses to.
pub uninterp spec fn zstd_plain_of(chunk: Seq<u8>) -> Seq<u8>;

/// Whether `chunk` decompresses cleanly: like the plaintext itself, this
/// depends on the compressed bytes alone.
pub uninterp spec fn zstd_frame_ok(chunk: Seq<u8>) -> bool;

/// Relies on `zstd_safe::DCtx::decompress_stream`: streaming decompression of
/// one complete frame. Whether it succeeds, and what plaintext it yields,
/// depend on the compressed bytes alone.
#[verifier::external_body]
fn zstd_decompress_frame(chunk: &[u8]) -> (r: Result<Vec<u8>, String>)
    ensures
        r is Ok <==> zstd_frame_ok(chunk@),
        r is Ok ==> r->Ok_0@ == zstd_plain_of(chunk@),
{
    let mut dctx = zstd_safe::DCtx::create();
    let mut out = vec![0u8; chunk.len() * 4 + 1024];
    let mut input = zstd_safe::InBuffer::around(chunk);
    let mut total: usize = 0;
    while input.pos < input.src.len() {
        let mut output = zstd_safe::OutBuffer::around(&mut out[total..]);
        match dctx.decompress_stream(&mut output, &mut input) {
            Ok(_) => total += output.pos(),
            Err(code) => return Err(zstd_safe::get_error_name(code).to_string()),
        }
        if total == out.len() { out.resize(out.len() * 2, 0); }
    }
    out.truncate(total);
    Ok(out)
}

/// A zstd decompressor for the compressed records of a perf.data file.
///
/// It carries the partial perf record that ended one compressed chunk, so the
/// record can be completed from the next chunk's plaintext.
pub struct ZstdDecompressor {
    /// The tail of the previous chunk's plaintext that ended mid-record.
    partial_record_buffer: Vec<u8>,
}

impl ZstdDecompressor {
    /// The saved plaintext tail that the next decompressed chunk continues.
    pub closed spec fn carried(&self) -> Seq<u8> {
        self.partial_record_buffer@
    }

    /// Creates a decompressor with nothing carried over.
    pub fn new() -> (r: Self)
        ensures
            r.carried() == Seq::<u8>::empty(),
    {
        ZstdDecompressor { partial_record_buffer: Vec::new() }
    }

    /// Decompress a chunk of zstd data. The result is the carried tail of the
    /// previous chunk followed by this chunk's plaintext; the carry is then
    /// empty.
    pub fn decompress(&mut self, compressed_data: &[u8]) -> (r: Result<Vec<u8>, Error>)
        ensures
            r is Ok <==> zstd_frame_ok(compressed_data@),
            r is Ok ==> r->Ok_0@ == old(self).carried() + zstd_plain_of(compressed_data@),
            r is Ok ==> final(self).carried() == Seq::<u8>::empty(),
            r is Err ==> r->Err_0 is ZstdDecompress && final(self).carried() == old(
                self,
            ).carried(),
    {
        match zstd_decompress_frame(compressed_data) {
            Ok(plain) => {
                let mut combined = self.partial_record_buffer.clone();
                self.partial_record_buffer = Vec::new();
                let mut rest = plain;
                combined.append(&mut rest);
                Ok(combined)
            }
            Err(msg) => Err(Error::ZstdDecompress(msg)),
        }
    }

    /// Save the partial record plaintext that spans into the next compressed
    /// chunk.
    pub fn save_partial_record(&mut self, data: &[u8])
        ensures
            final(self).carried() == data@,
    {
        self.partial_record_buffer = crate::buf::copy_range(data, 0, data.len());
        proof {
            assert(data@.subrange(0, data@.len() as int) =~= data@);
        }
    }
}

} // verus!
