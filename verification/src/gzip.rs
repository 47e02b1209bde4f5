use vstd::prelude::*;
use std::io::Write;

verus! {

// flate2's `GzEncoder<W>` cannot be declared to Verus directly (its generic
// carries the `std::io::Write` bound, which Verus has no declaration for), so
// the stream is held in an opaque struct of our own instead.
/// A gzip stream that compresses into an in-memory buffer.
#[verifier::external_body]
pub struct GzStream {
    inner: flate2::write::GzEncoder<Vec<u8>>,
}

#[verifier::external_type_specification]
#[verifier::external_body]
pub struct ExIoError(std::io::Error);

/// The bytes fed so far into a gzip stream.
pub uninterp spec fn gz_written(e: GzStream) -> Seq<u8>;

/// The gzip encoding, at the fast compression level and with the fixed,
/// reproducible stream header, of the given bytes.
pub uninterp spec fn gzip_fast(data: Seq<u8>) -> Seq<u8>;

/// Relies on flate2's `GzEncoder::new`: a fresh stream has had no bytes
/// written into it.
#[verifier::external_body]
pub(crate) fn gz_new() -> (r: GzStream)
    ensures
        gz_written(r) == Seq::<u8>::empty(),
{
    GzStream { inner: flate2::write::GzEncoder::new(Vec::new(), flate2::Compression::fast()) }
}

/// Relies on `Write::write_all` for flate2's `GzEncoder`: on success the whole
/// buffer has been accepted by the stream, in order, after what came before.
#[verifier::external_body]
pub(crate) fn gz_write_all(e: &mut GzStream, data: &Vec<u8>) -> (r: Result<(), std::io::Error>)
    ensures
        r is Ok ==> gz_written(*final(e)) == gz_written(*old(e)) + data@,
{
    e.inner.write_all(data.as_slice())
}

/// Relies on flate2's `GzEncoder::finish`: the returned buffer is the complete
/// gzip encoding of exactly the bytes written into the stream. flate2 fixes
/// the header fields (zero timestamp, fixed system byte), so the encoding
/// depends on those bytes alone.
#[verifier::external_body]
pub(crate) fn gz_finish(e: GzStream) -> (r: Result<Vec<u8>, std::io::Error>)
    ensures
        r matches Ok(v) ==> v@ == gzip_fast(gz_written(e)),
{
    e.inner.finish()
}

} // verus!
