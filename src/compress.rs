//! The sender's streaming compressor: one gzip stream per file, fed chunk by
//! chunk; the output of each chunk is sent on its own, and the concatenated
//! outputs, trailer last, form the whole stream.

use flate2::write::GzEncoder;
use flate2::Compression;
use std::io::Write;
use vstd::prelude::*;

verus! {

/// One file's gzip stream, writing to memory. (Verus does not take a
/// declaration of flate2's `GzEncoder`, whose parameter is bound by
/// `std::io::Write`; the encoder is held here instead, and only the trusted
/// functions below touch it.)
#[verifier::external_body]
pub struct ChunkCompressor {
    encoder: GzEncoder<Vec<u8>>,
}

/// The file bytes a stream has been fed so far.
pub uninterp spec fn gz_consumed(c: ChunkCompressor) -> Seq<u8>;

/// The compressed bytes taken out of a stream so far, in order.
pub uninterp spec fn gz_taken(c: ChunkCompressor) -> Seq<u8>;

/// What gzip decompression gives for `b`: the data, or `None` when `b` is
/// no complete gzip stream.
pub uninterp spec fn gunzip(b: Seq<u8>) -> Option<Seq<u8>>;

/// Relies on flate2's `GzEncoder::new` and `Compression::new`: a fresh
/// stream, fed nothing yet, writing to an empty buffer.
#[verifier::external_body]
fn gz_new(level: u32) -> (c: ChunkCompressor)
    ensures
        gz_consumed(c) == Seq::<u8>::empty(),
        gz_taken(c) == Seq::<u8>::empty(),
{
    ChunkCompressor { encoder: GzEncoder::new(Vec::new(), Compression::new(level)) }
}

/// Relies on flate2's `Write::write_all` for `GzEncoder`, writing to memory:
/// all of `data` enters the stream, and writing takes nothing out. It does
/// not fail: the `Vec` it writes to takes every byte; a full internal buffer
/// (miniz's `Buf` status) is emptied and retried by flate2 (`zio.rs`); and
/// miniz reports `BadParam` or `PutBufFailed` only after an earlier failure,
/// after a flush past `Finish`, or through an output callback, none of which
/// this stream, finished only by `gz_finish`, can meet.
#[verifier::external_body]
fn gz_write(c: &mut ChunkCompressor, data: &[u8]) -> (ok: bool)
    ensures
        ok,
        gz_consumed(*final(c)) == gz_consumed(*old(c)) + data@,
        gz_taken(*final(c)) == gz_taken(*old(c)),
{
    c.encoder.write_all(data).is_ok()
}

/// Relies on flate2's `GzEncoder::get_mut`: takes the output written so far,
/// leaving an empty buffer; the stream itself goes on (flate2 documents that
/// the outputs taken this way concatenate to the whole stream).
#[verifier::external_body]
fn gz_take_output(c: &mut ChunkCompressor) -> (out: Vec<u8>)
    ensures
        gz_consumed(*final(c)) == gz_consumed(*old(c)),
        gz_taken(*final(c)) == gz_taken(*old(c)) + out@,
{
    std::mem::take(c.encoder.get_mut())
}

/// Relies on flate2's `GzEncoder::finish`: ends the stream and hands back the
/// output not yet taken, trailer included, so that what was taken before
/// and this make the whole gzip stream, which decompresses to what the
/// stream was fed. Writing to memory, it does not fail (as for `gz_write`:
/// the one `Finish` flush meets an encoder whose every earlier call
/// succeeded).
#[verifier::external_body]
fn gz_finish(c: ChunkCompressor) -> (out: Option<Vec<u8>>)
    ensures
        out is Some,
        out matches Some(t) ==> gunzip(gz_taken(c) + t@) == Some(gz_consumed(c)),
{
    c.encoder.finish().ok()
}

/// The compression level used for every file: the best compression.
pub const COMPRESSION_LEVEL: u32 = 9;

impl ChunkCompressor {
    /// The file bytes fed to the stream so far.
    pub open spec fn input(self) -> Seq<u8> {
        gz_consumed(self)
    }

    /// The compressed bytes handed out so far.
    pub open spec fn taken(self) -> Seq<u8> {
        gz_taken(self)
    }

    pub fn new() -> (r: ChunkCompressor)
        ensures
            r.input() == Seq::<u8>::empty(),
            r.taken() == Seq::<u8>::empty(),
    {
        gz_new(COMPRESSION_LEVEL)
    }

    /// Feeds one chunk of the file and returns the compressed bytes the stream
    /// produced for it (possibly none).
    pub fn compress_chunk(&mut self, data: &[u8]) -> (r: Vec<u8>)
        ensures
            final(self).input() == old(self).input() + data@,
            final(self).taken() == old(self).taken() + r@,
    {
        gz_write(self, data);
        gz_take_output(self)
    }

    /// Ends the stream: the last compressed bytes, trailer included. With
    /// them, the bytes handed out decompress to the bytes fed.
    pub fn finish(self) -> (r: Vec<u8>)
        ensures
            gunzip(self.taken() + r@) == Some(self.input()),
    {
        gz_finish(self).unwrap()
    }
}

} // verus!
