//! Payload encoding: a batch goes out as it is, or as a gzip stream.

use crate::checksum::checksum;
use crate::checksum::crc32;
use crate::error::UploadError;
use async_compression::tokio::write::GzipEncoder;
use async_compression::Level;
use futures::FutureExt;
use tokio::io::AsyncWriteExt;
use vstd::prelude::*;

verus! {

/// How hard the compressor works.
#[derive(Clone, Copy, Debug, PartialEq, Eq)]
pub enum CompressionLevel {
    Fastest,
    Best,
    Default,
}

/// The content encoding that a payload is sent under.
#[derive(Clone, Copy, Debug, PartialEq, Eq)]
pub enum ContentEncoding {
    Identity,
    Gzip,
}

impl ContentEncoding {
    /// The value of the `Content-Encoding` header.
    pub open spec fn spec_label(self) -> Seq<char> {
        match self {
            ContentEncoding::Identity => "identity"@,
            ContentEncoding::Gzip => "gzip"@,
        }
    }

    /// The value of the `Content-Encoding` header.
    pub fn label(&self) -> (label: &'static str)
        ensures
            label@ == self.spec_label(),
    {
        match self {
            ContentEncoding::Identity => "identity",
            ContentEncoding::Gzip => "gzip",
        }
    }
}

/// The bytes of one batch as they go on the wire, with their encoding.
#[derive(Clone, Debug, PartialEq, Eq)]
pub struct EncodedPayload {
    pub content_encoding: ContentEncoding,
    pub body: Vec<u8>,
}

/// `std::io::Error`, the error of the compressor's writer.
#[verifier::external_type_specification]
#[verifier::external_body]
pub struct ExIoError(std::io::Error);

/// What `async_compression`'s `GzipEncoder` writes for `data` at `level`,
/// where it finishes: the complete gzip stream, that is its ten-byte header,
/// the deflate stream, and the checksum and length that close it. Nothing,
/// where the encoder fails. The sink is a `Vec`, which takes every write, so
/// both whether the encoder finishes and what it writes follow from the
/// bytes and the level alone.
pub uninterp spec fn gzip_stream(data: Seq<u8>, level: CompressionLevel) -> Option<Seq<u8>>;

/// `GzipEncoder::with_quality` over an empty `Vec`, then `write_all`,
/// `shutdown` and `into_inner`, each future polled once: a `Vec` takes every
/// write at once, so none of them is ever left pending.
///
/// The contract claims that the call succeeds exactly where the encoder
/// finishes for these bytes at this level, and that what comes back then
/// is the stream that it writes. `None` stands for a future that was not
/// ready at its first poll.
#[verifier::external_body]
pub(crate) fn gzip_compress(data: &[u8], level: CompressionLevel) -> (r: Option<
    Result<Vec<u8>, std::io::Error>,
>)
    ensures
        r matches Some(Ok(out)) ==> gzip_stream(data@, level) == Some(out@),
        !(r matches Some(Ok(_))) ==> gzip_stream(data@, level) is None,
{
    let quality = match level {
        CompressionLevel::Fastest => Level::Fastest,
        CompressionLevel::Best => Level::Best,
        CompressionLevel::Default => Level::Default,
    };
    let mut encoder = GzipEncoder::with_quality(Vec::new(), quality);
    if let Err(e) = encoder.write_all(data).now_or_never()? {
        return Some(Err(e));
    }
    if let Err(e) = encoder.shutdown().now_or_never()? {
        return Some(Err(e));
    }
    Some(Ok(encoder.into_inner()))
}

/// The number that four bytes stand for, the lowest first.
pub open spec fn le_u32(bytes: Seq<u8>) -> nat
    recommends
        bytes.len() == 4,
{
    (bytes[0] + 0x100 * bytes[1] + 0x1_0000 * bytes[2] + 0x100_0000 * bytes[3]) as nat
}

/// True when `stream` has the frame of a whole gzip stream of `raw`. It
/// has room for the ten bytes of the header and the eight of the trailer.
/// It starts with the two magic bytes, the deflate method, and a flag byte
/// that announces no further header field. It ends with the CRC-32 checksum
/// of `raw` and the length of `raw` modulo 2^32, each lowest byte first. A
/// stream that has lost its end could end so only by chance.
pub open spec fn is_gzip_frame(stream: Seq<u8>, raw: Seq<u8>) -> bool {
    &&& stream.len() >= 18
    &&& stream[0] == 0x1f
    &&& stream[1] == 0x8b
    &&& stream[2] == 0x08
    &&& stream[3] == 0
    &&& le_u32(stream.subrange(stream.len() - 8, stream.len() - 4)) == crc32(raw)
    &&& le_u32(stream.subrange(stream.len() - 4, stream.len() as int)) == raw.len() % 0x1_0000_0000
}

/// The number that the four bytes of `stream` from `at` on stand for, the
/// lowest first.
fn read_le_u32(stream: &[u8], at: usize) -> (value: u64)
    requires
        at + 4 <= stream.len(),
    ensures
        value == le_u32(stream@.subrange(at as int, at + 4)),
        value < 0x1_0000_0000,
{
    proof {
        let four = stream@.subrange(at as int, at + 4);
        assert(four[0] == stream@[at as int] && four[1] == stream@[at + 1] && four[2] == stream@[at
            + 2] && four[3] == stream@[at + 3]);
    }
    stream[at] as u64 + 0x100 * (stream[at + 1] as u64) + 0x1_0000 * (stream[at + 2] as u64)
        + 0x100_0000 * (stream[at + 3] as u64)
}

/// Tells whether `stream` has the frame of a whole gzip stream of `raw`.
pub fn check_gzip_frame(stream: &[u8], raw: &[u8]) -> (ok: bool)
    ensures
        ok == is_gzip_frame(stream@, raw@),
{
    let n: usize = stream.len();
    if n < 18 || stream[0] != 0x1f || stream[1] != 0x8b || stream[2] != 0x08 || stream[3] != 0 {
        return false;
    }
    let size: u64 = read_le_u32(stream, n - 4);
    if size != (raw.len() as u64) % 0x1_0000_0000 {
        return false;
    }
    read_le_u32(stream, n - 8) == checksum(raw) as u64
}

/// What becomes of the batch `raw` once the compressor has returned: a
/// stream with the frame of a whole gzip stream of `raw` goes out under
/// `gzip`; a stream cut short, or a failure of the compressor, is fatal for
/// the batch.
pub fn gzip_payload(compressed: Option<Result<Vec<u8>, std::io::Error>>, raw: &[u8]) -> (r: Result<
    EncodedPayload,
    UploadError,
>)
    ensures
        compressed matches Some(Ok(out)) ==> if is_gzip_frame(out@, raw@) {
            r == Ok::<EncodedPayload, UploadError>(
                EncodedPayload { content_encoding: ContentEncoding::Gzip, body: out },
            )
        } else {
            r matches Err(UploadError::Compression { .. })
        },
        !(compressed matches Some(Ok(_))) ==> r matches Err(UploadError::Compression { .. }),
{
    match compressed {
        Some(Ok(out)) => {
            if check_gzip_frame(out.as_slice(), raw) {
                Ok(EncodedPayload { content_encoding: ContentEncoding::Gzip, body: out })
            } else {
                Err(UploadError::Compression { detail: "the gzip stream is cut short".to_owned() })
            }
        },
        Some(Err(e)) => Err(UploadError::Compression { detail: e.to_string() }),
        None => Err(UploadError::Compression { detail: "the compressor did not finish".to_owned() }),
    }
}

/// Encodes the bytes of a batch for the wire.
///
/// Without a level the bytes pass through unchanged under `identity`. With a
/// level they are compressed. Where the encoder finishes and its stream has
/// the frame of a whole gzip stream of `raw`, the body is that stream,
/// header to trailer, under `gzip`. Where the encoder fails, or its stream
/// is cut short, the result is a compression error.
pub fn encode_payload(raw: Vec<u8>, level: Option<CompressionLevel>) -> (r: Result<
    EncodedPayload,
    UploadError,
>)
    ensures
        level is None ==> r == Ok::<EncodedPayload, UploadError>(
            EncodedPayload { content_encoding: ContentEncoding::Identity, body: raw },
        ),
        level matches Some(l) ==> match gzip_stream(raw@, l) {
            Some(stream) => if is_gzip_frame(stream, raw@) {
                r matches Ok(payload) && payload.content_encoding == ContentEncoding::Gzip
                    && payload.body@ == stream
            } else {
                r matches Err(UploadError::Compression { .. })
            },
            None => r matches Err(UploadError::Compression { .. }),
        },
{
    match level {
        None => Ok(EncodedPayload { content_encoding: ContentEncoding::Identity, body: raw }),
        Some(l) => gzip_payload(gzip_compress(raw.as_slice(), l), raw.as_slice()),
    }
}

} // verus!
