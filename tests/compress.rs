use flate2::read::GzDecoder;
use std::io::Read;
use transporter::compress::ChunkCompressor;

#[test]
fn compressed_chunks_decompress_to_the_input() {
    let data: Vec<u8> = (0..300_000u32).map(|i| (i % 97) as u8).collect();
    let mut c = ChunkCompressor::new();
    let mut stream = Vec::new();
    for chunk in data.chunks(131072) {
        stream.extend(c.compress_chunk(chunk));
    }
    stream.extend(c.finish());
    assert_ne!(stream, data);
    assert!(stream.len() < data.len());
    let mut out = Vec::new();
    GzDecoder::new(&stream[..]).read_to_end(&mut out).unwrap();
    assert_eq!(out, data);
}

#[test]
fn empty_stream_is_valid_gzip() {
    let c = ChunkCompressor::new();
    let stream = c.finish();
    assert_eq!(&stream[..2], &[0x1f, 0x8b]);
    let mut out = Vec::new();
    GzDecoder::new(&stream[..]).read_to_end(&mut out).unwrap();
    assert!(out.is_empty());
}
