//! Compressed-payload codec: inflates gzip/zlib tile and grid blobs to
//! UTF-8 text and gzip-compresses raw buffers for re-serving.

use vstd::prelude::*;

use crate::error::{is_io_error, BaseError, TileError};
use crate::tile_format::{spec_format_name, DataFormat};

verus! {

/// What gzip decompression yields on a byte sequence: the decompressed
/// member for a well-formed stream, nothing for a truncated or corrupt one.
/// Decompression is a pure function of the bytes, so the result carries a
/// name rather than a transcription of the algorithm.
pub uninterp spec fn gunzip_of(b: Seq<u8>) -> Option<Seq<u8>>;

/// What zlib decompression yields on a byte sequence, as `gunzip_of`.
pub uninterp spec fn zlib_inflate_of(b: Seq<u8>) -> Option<Seq<u8>>;

/// Relies on `flate2::read::GzDecoder` with `std::io::Read::read_to_end`:
/// inflates one gzip member, failing on truncated or corrupt input.
#[verifier::external_body]
fn gzip_decompress(data: &[u8]) -> (r: Result<Vec<u8>, String>)
    ensures
        match r {
            Ok(v) => gunzip_of(data@) == Some(v@),
            Err(_) => gunzip_of(data@) is None,
        },
{
    let mut decoder = flate2::read::GzDecoder::new(data);
    let mut out: Vec<u8> = Vec::new();
    match std::io::Read::read_to_end(&mut decoder, &mut out) {
        Ok(_) => Ok(out),
        Err(e) => Err(e.to_string()),
    }
}

/// Relies on `flate2::read::ZlibDecoder` with `std::io::Read::read_to_end`:
/// inflates a zlib stream, failing on truncated or corrupt input.
#[verifier::external_body]
fn zlib_decompress(data: &[u8]) -> (r: Result<Vec<u8>, String>)
    ensures
        match r {
            Ok(v) => zlib_inflate_of(data@) == Some(v@),
            Err(_) => zlib_inflate_of(data@) is None,
        },
{
    let mut decoder = flate2::read::ZlibDecoder::new(data);
    let mut out: Vec<u8> = Vec::new();
    match std::io::Read::read_to_end(&mut decoder, &mut out) {
        Ok(_) => Ok(out),
        Err(e) => Err(e.to_string()),
    }
}

/// Relies on `String::from_utf8`: succeeds exactly on valid UTF-8 and
/// yields its decoding.
#[verifier::external_body]
fn bytes_to_utf8(data: Vec<u8>) -> (r: Option<String>)
    ensures
        match r {
            Some(s) => vstd::utf8::valid_utf8(data@) && s@ == vstd::utf8::decode_utf8(data@),
            None => !vstd::utf8::valid_utf8(data@),
        },
{
    String::from_utf8(data).ok()
}

/// Relies on `flate2::write::GzEncoder` at the default compression level:
/// the output is one complete gzip member, beginning with the gzip magic
/// bytes `1F 8B`, that inflates back to exactly the input. Writing into a
/// `Vec` sink cannot fail.
#[verifier::external_body]
pub fn encode(data: &[u8]) -> (r: Vec<u8>)
    ensures
        gunzip_of(r@) == Some(data@),
        r@.len() >= 2 && r@[0] == 0x1fu8 && r@[1] == 0x8bu8,
{
    let mut encoder = flate2::write::GzEncoder::new(Vec::new(), flate2::Compression::default());
    std::io::Write::write_all(&mut encoder, data).unwrap();
    encoder.finish().unwrap()
}

/// What decompressing a buffer under a claimed container format yields:
/// nothing unless the format is a compression container holding a
/// well-formed stream.
pub open spec fn spec_inflate(b: Seq<u8>, f: DataFormat) -> Option<Seq<u8>> {
    match f {
        DataFormat::GZIP => gunzip_of(b),
        DataFormat::ZLIB => zlib_inflate_of(b),
        _ => None,
    }
}

/// What decoding a buffer to text yields: the UTF-8 reading of its
/// decompression, when both steps succeed.
pub open spec fn spec_decode(b: Seq<u8>, f: DataFormat) -> Option<Seq<char>> {
    match spec_inflate(b, f) {
        Some(raw) => if vstd::utf8::valid_utf8(raw) {
            Some(vstd::utf8::decode_utf8(raw))
        } else {
            None
        },
        None => None,
    }
}

/// Decompresses a gzip or zlib buffer to raw bytes. Any other claimed
/// format is rejected as `InvalidDataFormat`; a corrupt stream fails with
/// an `IOError`-kind decode error, never a panic.
pub fn decompress(data: &[u8], data_type: DataFormat) -> (r: Result<Vec<u8>, BaseError>)
    ensures
        data_type != DataFormat::GZIP && data_type != DataFormat::ZLIB ==> (r matches Err(
            BaseError::TileData(TileError::InvalidDataFormat(m)),
        ) && m@ == spec_format_name(data_type)),
        spec_inflate(data@, data_type) matches Some(raw) ==> (r matches Ok(v) && v@ == raw),
        (data_type == DataFormat::GZIP || data_type == DataFormat::ZLIB) && spec_inflate(
            data@,
            data_type,
        ) is None ==> (r matches Err(e) && is_io_error(e)),
{
    match data_type {
        DataFormat::GZIP => match gzip_decompress(data) {
            Ok(v) => Ok(v),
            Err(m) => Err(BaseError::TileData(TileError::IOError(m))),
        },
        DataFormat::ZLIB => match zlib_decompress(data) {
            Ok(v) => Ok(v),
            Err(m) => Err(BaseError::TileData(TileError::IOError(m))),
        },
        _ => Err(
            BaseError::TileData(TileError::InvalidDataFormat(data_type.format().to_owned())),
        ),
    }
}

/// Decodes a gzip or zlib buffer to UTF-8 text. The error cases of
/// `decompress` carry over; decompressed bytes that are not UTF-8 fail
/// with an `IOError`-kind decode error.
pub fn decode(data: Vec<u8>, data_type: DataFormat) -> (r: Result<String, BaseError>)
    ensures
        data_type != DataFormat::GZIP && data_type != DataFormat::ZLIB ==> (r matches Err(
            BaseError::TileData(TileError::InvalidDataFormat(m)),
        ) && m@ == spec_format_name(data_type)),
        spec_decode(data@, data_type) matches Some(text) ==> (r matches Ok(s) && s@ == text),
        (data_type == DataFormat::GZIP || data_type == DataFormat::ZLIB) && spec_decode(
            data@,
            data_type,
        ) is None ==> (r matches Err(e) && is_io_error(e)),
{
    let raw = match decompress(data.as_slice(), data_type) {
        Ok(v) => v,
        Err(e) => {
            return Err(e);
        },
    };
    match bytes_to_utf8(raw) {
        Some(s) => Ok(s),
        None => Err(
            BaseError::TileData(
                TileError::IOError("decompressed data is not valid utf-8".to_owned()),
            ),
        ),
    }
}

/// Law: gzip-encoding an arbitrary byte sequence and decompressing the
/// result returns the original bytes.
pub fn gzip_round_trip(data: &[u8]) -> (r: Vec<u8>)
    ensures
        r@ == data@,
{
    let compressed = encode(data);
    match decompress(compressed.as_slice(), DataFormat::GZIP) {
        Ok(v) => v,
        Err(_) => {
            proof {
                assert(false);
            }
            Vec::new()
        },
    }
}

} // verus!
