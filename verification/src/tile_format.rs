//! Binary-format classification of tile payloads by magic-number prefix.

use vstd::prelude::*;

use crate::parsing::str_eq;

verus! {

/// The closed set of payload formats a tile archive can hold. `GZIP` and
/// `ZLIB` are container formats layered over `JSON` or `PBF` payloads.
#[derive(Clone, Copy, Debug, PartialEq, Eq, Structural)]
pub enum DataFormat {
    PNG,
    JPG,
    WEBP,
    JSON,
    PBF,
    GZIP,
    ZLIB,
    UNKNOWN,
}

/// Magic-number classification of a byte buffer, first match wins:
/// gzip (`1F 8B`), zlib (`78 9C`), PNG's 8-byte signature, JPEG (`FF D8 FF`),
/// then RIFF/WEBP (`RIFF` at 0..4 and `WEBP` at 8..12). A buffer too short
/// for every check is `UNKNOWN`.
pub open spec fn spec_classify(b: Seq<u8>) -> DataFormat {
    if b.len() >= 2 && b[0] == 0x1fu8 && b[1] == 0x8bu8 {
        DataFormat::GZIP
    } else if b.len() >= 2 && b[0] == 0x78u8 && b[1] == 0x9cu8 {
        DataFormat::ZLIB
    } else if b.len() >= 8 && b[0] == 0x89u8 && b[1] == 0x50u8 && b[2] == 0x4eu8 && b[3] == 0x47u8
        && b[4] == 0x0du8 && b[5] == 0x0au8 && b[6] == 0x1au8 && b[7] == 0x0au8 {
        DataFormat::PNG
    } else if b.len() >= 3 && b[0] == 0xffu8 && b[1] == 0xd8u8 && b[2] == 0xffu8 {
        DataFormat::JPG
    } else if b.len() >= 12 && b[0] == 0x52u8 && b[1] == 0x49u8 && b[2] == 0x46u8 && b[3] == 0x46u8
        && b[8] == 0x57u8 && b[9] == 0x45u8 && b[10] == 0x42u8 && b[11] == 0x50u8 {
        DataFormat::WEBP
    } else {
        DataFormat::UNKNOWN
    }
}

/// Sniffs the format of a raw buffer. Every prefix comparison is bounds
/// checked: a buffer shorter than a magic number simply fails that check.
pub fn get_data_format(data: &Vec<u8>) -> (r: DataFormat)
    ensures
        r == spec_classify(data@),
{
    let n = data.len();
    if n >= 2 && data[0] == 0x1f && data[1] == 0x8b {
        DataFormat::GZIP
    } else if n >= 2 && data[0] == 0x78 && data[1] == 0x9c {
        DataFormat::ZLIB
    } else if n >= 8 && data[0] == 0x89 && data[1] == 0x50 && data[2] == 0x4e && data[3] == 0x47
        && data[4] == 0x0d && data[5] == 0x0a && data[6] == 0x1a && data[7] == 0x0a {
        DataFormat::PNG
    } else if n >= 3 && data[0] == 0xff && data[1] == 0xd8 && data[2] == 0xff {
        DataFormat::JPG
    } else if n >= 12 && data[0] == 0x52 && data[1] == 0x49 && data[2] == 0x46 && data[3] == 0x46
        && data[8] == 0x57 && data[9] == 0x45 && data[10] == 0x42 && data[11] == 0x50 {
        DataFormat::WEBP
    } else {
        DataFormat::UNKNOWN
    }
}

/// The format name a caller would write for each format; the container and
/// unknown formats have none.
pub open spec fn spec_format_name(f: DataFormat) -> Seq<char> {
    match f {
        DataFormat::PNG => "png"@,
        DataFormat::JPG => "jpg"@,
        DataFormat::WEBP => "webp"@,
        DataFormat::JSON => "json"@,
        DataFormat::PBF => "pbf"@,
        DataFormat::GZIP => ""@,
        DataFormat::ZLIB => ""@,
        DataFormat::UNKNOWN => ""@,
    }
}

/// The MIME type served with a payload of each format; the container and
/// unknown formats have none.
pub open spec fn spec_content_type(f: DataFormat) -> Seq<char> {
    match f {
        DataFormat::PNG => "image/png"@,
        DataFormat::JPG => "image/jpeg"@,
        DataFormat::WEBP => "image/webp"@,
        DataFormat::JSON => "application/json"@,
        DataFormat::PBF => "application/x-protobuf"@,
        DataFormat::GZIP => ""@,
        DataFormat::ZLIB => ""@,
        DataFormat::UNKNOWN => ""@,
    }
}

/// The format named by a configuration string; anything unrecognized maps
/// to `UNKNOWN`.
pub open spec fn spec_format_of_name(s: Seq<char>) -> DataFormat {
    if s == "png"@ {
        DataFormat::PNG
    } else if s == "jpg"@ || s == "jpeg"@ {
        DataFormat::JPG
    } else if s == "webp"@ {
        DataFormat::WEBP
    } else if s == "json"@ {
        DataFormat::JSON
    } else if s == "pbf"@ {
        DataFormat::PBF
    } else if s == "gzip"@ {
        DataFormat::GZIP
    } else if s == "zlib"@ {
        DataFormat::ZLIB
    } else {
        DataFormat::UNKNOWN
    }
}

impl DataFormat {
    /// Parses a format name such as `"png"` or `"pbf"`; unrecognized names
    /// give `UNKNOWN`.
    pub fn new(format: &str) -> (r: DataFormat)
        ensures
            r == spec_format_of_name(format@),
    {
        if str_eq(format, "png") {
            DataFormat::PNG
        } else if str_eq(format, "jpg") || str_eq(format, "jpeg") {
            DataFormat::JPG
        } else if str_eq(format, "webp") {
            DataFormat::WEBP
        } else if str_eq(format, "json") {
            DataFormat::JSON
        } else if str_eq(format, "pbf") {
            DataFormat::PBF
        } else if str_eq(format, "gzip") {
            DataFormat::GZIP
        } else if str_eq(format, "zlib") {
            DataFormat::ZLIB
        } else {
            DataFormat::UNKNOWN
        }
    }

    /// The file-extension-style name of this format.
    pub fn format(&self) -> (r: &'static str)
        ensures
            r@ == spec_format_name(*self),
    {
        match *self {
            DataFormat::PNG => "png",
            DataFormat::JPG => "jpg",
            DataFormat::WEBP => "webp",
            DataFormat::JSON => "json",
            DataFormat::PBF => "pbf",
            DataFormat::GZIP => "",
            DataFormat::ZLIB => "",
            DataFormat::UNKNOWN => "",
        }
    }

    /// The MIME type to serve with a payload of this format.
    pub fn content_type(&self) -> (r: &'static str)
        ensures
            r@ == spec_content_type(*self),
    {
        match *self {
            DataFormat::PNG => "image/png",
            DataFormat::JPG => "image/jpeg",
            DataFormat::WEBP => "image/webp",
            DataFormat::JSON => "application/json",
            DataFormat::PBF => "application/x-protobuf",
            DataFormat::GZIP => "",
            DataFormat::ZLIB => "",
            DataFormat::UNKNOWN => "",
        }
    }
}

/// Law: a buffer that begins with the gzip magic bytes classifies as
/// `GZIP`; in particular every gzip-encoded payload sniffs as `GZIP`.
pub proof fn lemma_gzip_magic_classifies(b: Seq<u8>)
    requires
        b.len() >= 2,
        b[0] == 0x1fu8,
        b[1] == 0x8bu8,
    ensures
        spec_classify(b) == DataFormat::GZIP,
{
}

/// Law: a buffer shorter than the shortest magic-number prefix (two bytes)
/// classifies as `UNKNOWN`.
pub proof fn lemma_classify_short_is_unknown(b: Seq<u8>)
    requires
        b.len() < 2,
    ensures
        spec_classify(b) == DataFormat::UNKNOWN,
{
}

} // verus!
