//! zlib streams and Base64 text, as the `flate2` and `base64` crates produce
//! and read them.
use base64::Engine;
use std::io::{Read, Write};
use vstd::prelude::*;

verus! {

/// The zlib stream that `flate2::write::ZlibEncoder` writes for `data` at
/// `Compression::default()`.
pub uninterp spec fn zlib_compress(data: Seq<u8>) -> Seq<u8>;

/// The zlib stream that `flate2::write::ZlibEncoder` writes for `data` at
/// `Compression::fast()`.
pub uninterp spec fn zlib_compress_fast(data: Seq<u8>) -> Seq<u8>;

/// The bytes that `data` decodes to when it is exactly one complete zlib
/// stream; `None` for anything else.
pub uninterp spec fn zlib_decompress(data: Seq<u8>) -> Option<Seq<u8>>;

/// The standard Base64 alphabet of RFC 4648.
pub open spec fn base64_alphabet() -> Seq<char> {
    "ABCDEFGHIJKLMNOPQRSTUVWXYZabcdefghijklmnopqrstuvwxyz0123456789+/"@
}

/// The standard padded Base64 text of `data` (RFC 4648): each group of
/// three bytes becomes four characters of six bits each, most significant
/// first; a last group of one or two bytes is filled with zero bits and
/// padded with `=` to four characters.
pub open spec fn base64_standard(data: Seq<u8>) -> Seq<char>
    decreases data.len(),
{
    let a = base64_alphabet();
    let b0 = data[0] as int;
    let b1 = data[1] as int;
    let b2 = data[2] as int;
    if data.len() == 0 {
        Seq::empty()
    } else if data.len() == 1 {
        seq![a[b0 / 4], a[(b0 % 4) * 16], '=', '=']
    } else if data.len() == 2 {
        seq![a[b0 / 4], a[(b0 % 4) * 16 + b1 / 16], a[(b1 % 16) * 4], '=']
    } else {
        seq![
            a[b0 / 4],
            a[(b0 % 4) * 16 + b1 / 16],
            a[(b1 % 16) * 4 + b2 / 64],
            a[b2 % 64],
        ] + base64_standard(data.skip(3))
    }
}

/// Compresses `data` with `flate2::write::ZlibEncoder` at the default level.
/// Claims that the result is the named stream and, zlib being lossless,
/// that decoding it gives `data` back; and that for up to 128 KiB of data
/// the stream is not empty (it starts with the zlib header) and at most
/// twice as long (miniz_oxide's deflater writes a stored block, with a few
/// bytes of overhead, where compressing would expand the data).
#[verifier::external_body]
pub fn compress(data: &[u8]) -> (r: Vec<u8>)
    ensures
        r@ == zlib_compress(data@),
        zlib_decompress(r@) == Some(data@),
        data@.len() <= 131072 ==> 0 < r@.len() <= 262144,
{
    let mut encoder = flate2::write::ZlibEncoder::new(
        Vec::with_capacity(data.len() / 4),
        flate2::Compression::default(),
    );
    encoder.write_all(data).unwrap();
    encoder.finish().unwrap()
}

/// Compresses `data` with `flate2::write::ZlibEncoder` at the fast level.
/// Claims that the result is the named stream, that it decodes to `data`,
/// and the same bound on its length as `compress`.
#[verifier::external_body]
pub fn compress_fast(data: &[u8]) -> (r: Vec<u8>)
    ensures
        r@ == zlib_compress_fast(data@),
        zlib_decompress(r@) == Some(data@),
        data@.len() <= 131072 ==> 0 < r@.len() <= 262144,
{
    let mut encoder = flate2::write::ZlibEncoder::new(
        Vec::with_capacity(data.len() / 2),
        flate2::Compression::fast(),
    );
    encoder.write_all(data).unwrap();
    encoder.finish().unwrap()
}

/// Decodes a whole zlib stream with `flate2::read::ZlibDecoder`, reading to
/// its end. Claims the decoded bytes are the named ones; the caller must
/// know that `data` is a complete stream, as the read is unwrapped.
#[verifier::external_body]
pub fn decompress(data: &[u8], capacity: usize) -> (r: Vec<u8>)
    requires
        zlib_decompress(data@) is Some,
    ensures
        zlib_decompress(data@) == Some(r@),
{
    let mut decoder = flate2::read::ZlibDecoder::new(data);
    let mut output = Vec::with_capacity(capacity);
    decoder.read_to_end(&mut output).unwrap();
    output
}

/// What one `flate2::Decompress::decompress_vec` call with
/// `FlushDecompress::Finish` reports: whether the stream ended, how many
/// input bytes it consumed, and the bytes it wrote.
pub struct InflateStep {
    pub stream_end: bool,
    pub consumed: u64,
    pub output: Vec<u8>,
}

/// Runs a fresh zlib `flate2::Decompress` over all of `chunk` in one
/// `decompress_vec` call with `FlushDecompress::Finish`, into a vector of at
/// least `capacity` bytes of room. Claims: when the call reports the end of
/// the stream after consuming all of `chunk`, the output is what `chunk`
/// decodes to; and when `chunk` is one complete stream whose decoded bytes
/// fit in `capacity`, the call reports exactly that. `None` stands for a
/// decompression error.
#[verifier::external_body]
pub fn inflate_once(chunk: &[u8], capacity: usize) -> (r: Option<InflateStep>)
    ensures
        r is Some && r.unwrap().stream_end && r.unwrap().consumed == chunk@.len() ==> zlib_decompress(
            chunk@,
        ) == Some(r.unwrap().output@),
        zlib_decompress(chunk@) is Some && zlib_decompress(chunk@).unwrap().len() <= capacity ==> (
        r is Some && r.unwrap().stream_end && r.unwrap().consumed == chunk@.len() && zlib_decompress(
            chunk@,
        ) == Some(r.unwrap().output@)),
{
    let mut decoder = flate2::Decompress::new(true);
    let mut output = Vec::with_capacity(capacity);
    match decoder.decompress_vec(chunk, &mut output, flate2::FlushDecompress::Finish) {
        Ok(status) => Some(InflateStep {
            stream_end: matches!(status, flate2::Status::StreamEnd),
            consumed: decoder.total_in(),
            output,
        }),
        Err(_) => None,
    }
}

/// Encodes `data` with `base64`'s `STANDARD` engine, whose alphabet is
/// the standard one and which pads; claims that the result is
/// `base64_standard` of `data`.
#[verifier::external_body]
pub fn base64_encode(data: &[u8]) -> (r: String)
    ensures
        r@ == base64_standard(data@),
{
    base64::engine::general_purpose::STANDARD.encode(data)
}

} // verus!
