//! Compressing a packet into a frame's payload and back, one packet at a
//! time: no state is carried from one call to the next.

use async_compression::tokio::bufread::{GzipDecoder, ZstdDecoder};
use async_compression::tokio::write::{GzipEncoder, ZstdEncoder};
use async_compression::Level;
use futures::FutureExt;
use tokio::io::{AsyncReadExt, AsyncWriteExt};
use vstd::prelude::*;
use vstd::slice::slice_to_vec;

use crate::types::CompressionType;

verus! {

/// The effort that zstd spends on compressing.
#[derive(Debug, Copy, Clone, PartialEq, Eq)]
pub enum ZstdLevel {
    Fastest,
    Default,
    Best,
}

/// Why a payload could not be compressed or decompressed.
#[derive(Debug, Copy, Clone, PartialEq, Eq)]
pub enum CompressionError {
    /// The codec reported an error.
    CodecFailed,
    /// The output is longer than the buffer it was meant for.
    OutputTooLarge,
}

/// The zstd frame that `async_compression` writes for `data` at `level`, or
/// `None` where its encoder reports an error.
pub uninterp spec fn zstd_encoded(data: Seq<u8>, level: ZstdLevel) -> Option<Seq<u8>>;

/// The gzip member that `async_compression` writes for `data`, or `None`
/// where its encoder reports an error.
pub uninterp spec fn gzip_encoded(data: Seq<u8>) -> Option<Seq<u8>>;

/// The content of the zstd frame at the front of `data` as
/// `async_compression` reads it, or `None` where its decoder reports an error.
pub uninterp spec fn zstd_decoded(data: Seq<u8>) -> Option<Seq<u8>>;

/// The content of the gzip member at the front of `data` as
/// `async_compression` reads it, or `None` where its decoder reports an error.
pub uninterp spec fn gzip_decoded(data: Seq<u8>) -> Option<Seq<u8>>;

/// Runs `async_compression::tokio::write::ZstdEncoder` over `data` into an
/// empty vector: `with_quality`, then `write_all`, `flush` and `shutdown`.
/// Trusted: the bytes written are a function of `data` and `level` alone, and
/// the contract only gives them their name.
#[verifier::external_body]
fn zstd_encode(data: &[u8], level: ZstdLevel) -> (r: Option<Vec<u8>>)
    ensures
        match r {
            Some(v) => zstd_encoded(data@, level) == Some(v@),
            None => zstd_encoded(data@, level) is None,
        },
{
    let quality = match level {
        ZstdLevel::Fastest => Level::Fastest,
        ZstdLevel::Default => Level::Default,
        ZstdLevel::Best => Level::Best,
    };
    let mut encoder = ZstdEncoder::with_quality(Vec::new(), quality);
    encoder.write_all(data).now_or_never()?.ok()?;
    encoder.flush().now_or_never()?.ok()?;
    encoder.shutdown().now_or_never()?.ok()?;
    Some(encoder.into_inner())
}

/// Runs `async_compression::tokio::write::GzipEncoder` over `data` into an
/// empty vector: `with_quality` at the default level, then `write_all`,
/// `flush` and `shutdown`. Trusted: the bytes written are a function of
/// `data` alone, and the contract only gives them their name.
#[verifier::external_body]
fn gzip_encode(data: &[u8]) -> (r: Option<Vec<u8>>)
    ensures
        match r {
            Some(v) => gzip_encoded(data@) == Some(v@),
            None => gzip_encoded(data@) is None,
        },
{
    let mut encoder = GzipEncoder::with_quality(Vec::new(), Level::Default);
    encoder.write_all(data).now_or_never()?.ok()?;
    encoder.flush().now_or_never()?.ok()?;
    encoder.shutdown().now_or_never()?.ok()?;
    Some(encoder.into_inner())
}

/// Reads `data` to its end through
/// `async_compression::tokio::bufread::ZstdDecoder`. Trusted: the bytes read
/// are a function of `data` alone, and the contract only gives them their
/// name.
#[verifier::external_body]
fn zstd_decode(data: &[u8]) -> (r: Option<Vec<u8>>)
    ensures
        match r {
            Some(v) => zstd_decoded(data@) == Some(v@),
            None => zstd_decoded(data@) is None,
        },
{
    let mut out = Vec::with_capacity(data.len());
    let mut decoder = ZstdDecoder::new(data);
    decoder.read_to_end(&mut out).now_or_never()?.ok()?;
    Some(out)
}

/// Reads `data` to its end through
/// `async_compression::tokio::bufread::GzipDecoder`. Trusted: the bytes read
/// are a function of `data` alone, and the contract only gives them their
/// name.
#[verifier::external_body]
fn gzip_decode(data: &[u8]) -> (r: Option<Vec<u8>>)
    ensures
        match r {
            Some(v) => gzip_decoded(data@) == Some(v@),
            None => gzip_decoded(data@) is None,
        },
{
    let mut out = Vec::with_capacity(data.len());
    let mut decoder = GzipDecoder::new(data);
    decoder.read_to_end(&mut out).now_or_never()?.ok()?;
    Some(out)
}

/// What compressing `data` under `t` gives: `data` itself where `t` leaves
/// the payload as it is, else what the codec writes.
pub open spec fn compressed(data: Seq<u8>, t: CompressionType) -> Option<Seq<u8>> {
    match t {
        CompressionType::Uncompressed => Some(data),
        CompressionType::Zstd => zstd_encoded(data, ZstdLevel::Default),
        CompressionType::ZstdFast => zstd_encoded(data, ZstdLevel::Fastest),
        CompressionType::ZstdSlow => zstd_encoded(data, ZstdLevel::Best),
        CompressionType::Gzip => gzip_encoded(data),
    }
}

/// What decompressing `data` under `t` gives: `data` itself where `t` leaves
/// the payload as it is, else what the codec reads.
pub open spec fn decompressed(data: Seq<u8>, t: CompressionType) -> Option<Seq<u8>> {
    match t {
        CompressionType::Uncompressed => Some(data),
        CompressionType::Zstd | CompressionType::ZstdFast | CompressionType::ZstdSlow
            => zstd_decoded(data),
        CompressionType::Gzip => gzip_decoded(data),
    }
}

/// What `buf` holds after `bytes` were written to its front.
pub open spec fn overwritten(buf: Seq<u8>, bytes: Seq<u8>) -> Seq<u8> {
    bytes + buf.skip(bytes.len() as int)
}

/// Puts a codec's output at the front of `buf` and returns its length. A
/// failed codec and an output longer than `buf` are errors, and leave `buf`
/// as it was.
pub fn place_in_buf(encoded: Option<Vec<u8>>, buf: &mut [u8]) -> (r: Result<
    usize,
    CompressionError,
>)
    ensures
        final(buf)@.len() == old(buf)@.len(),
        match encoded {
            None => r == Err::<usize, CompressionError>(CompressionError::CodecFailed)
                && final(buf)@ == old(buf)@,
            Some(v) => if v@.len() <= old(buf)@.len() {
                r == Ok::<usize, CompressionError>(v@.len() as usize)
                    && final(buf)@ == overwritten(old(buf)@, v@)
            } else {
                r == Err::<usize, CompressionError>(CompressionError::OutputTooLarge)
                    && final(buf)@ == old(buf)@
            },
        },
{
    match encoded {
        None => Err(CompressionError::CodecFailed),
        Some(v) => {
            let n: usize = v.len();
            if n > buf.len() {
                return Err(CompressionError::OutputTooLarge);
            }
            let mut i: usize = 0;
            while i < n
                invariant
                    i <= n,
                    n == v@.len(),
                    n <= buf@.len(),
                    buf@.len() == old(buf)@.len(),
                    forall|j: int| 0 <= j < i ==> buf@[j] == v@[j],
                    forall|j: int| i <= j < buf@.len() ==> buf@[j] == old(buf)@[j],
                decreases n - i,
            {
                buf[i] = v[i];
                i = i + 1;
            }
            assert(buf@ =~= overwritten(old(buf)@, v@));
            Ok(n)
        },
    }
}

/// Compresses `data` under `compression_type` into the front of `buf` and
/// returns the number of bytes written.
pub fn compress_into_buf(data: &[u8], buf: &mut [u8], compression_type: CompressionType) -> (r:
    Result<usize, CompressionError>)
    ensures
        final(buf)@.len() == old(buf)@.len(),
        match compressed(data@, compression_type) {
            None => r == Err::<usize, CompressionError>(CompressionError::CodecFailed)
                && final(buf)@ == old(buf)@,
            Some(c) => if c.len() <= old(buf)@.len() {
                r == Ok::<usize, CompressionError>(c.len() as usize)
                    && final(buf)@ == overwritten(old(buf)@, c)
            } else {
                r == Err::<usize, CompressionError>(CompressionError::OutputTooLarge)
                    && final(buf)@ == old(buf)@
            },
        },
{
    let encoded = match compression_type {
        CompressionType::Uncompressed => Some(slice_to_vec(data)),
        CompressionType::Zstd => zstd_encode(data, ZstdLevel::Default),
        CompressionType::ZstdFast => zstd_encode(data, ZstdLevel::Fastest),
        CompressionType::ZstdSlow => zstd_encode(data, ZstdLevel::Best),
        CompressionType::Gzip => gzip_encode(data),
    };
    place_in_buf(encoded, buf)
}

/// Decompresses `data` under `compression_type`.
pub fn decompress_into_bytes(data: &[u8], compression_type: CompressionType) -> (r: Result<
    Vec<u8>,
    CompressionError,
>)
    ensures
        match decompressed(data@, compression_type) {
            Some(d) => r matches Ok(v) && v@ == d,
            None => r matches Err(e) && e == CompressionError::CodecFailed,
        },
{
    let decoded = match compression_type {
        CompressionType::Uncompressed => Some(slice_to_vec(data)),
        CompressionType::Zstd => zstd_decode(data),
        CompressionType::ZstdFast => zstd_decode(data),
        CompressionType::ZstdSlow => zstd_decode(data),
        CompressionType::Gzip => gzip_decode(data),
    };
    match decoded {
        Some(v) => Ok(v),
        None => Err(CompressionError::CodecFailed),
    }
}

} // verus!
