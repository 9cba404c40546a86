use mbtiles::tile_format::{get_data_format, DataFormat};

#[test]
fn classify_gzip_prefix() {
    assert_eq!(get_data_format(&vec![0x1f, 0x8b, 0x00, 0x00]), DataFormat::GZIP);
}

#[test]
fn classify_zlib_prefix() {
    assert_eq!(get_data_format(&vec![0x78, 0x9c, 0x01]), DataFormat::ZLIB);
}

#[test]
fn classify_png_signature() {
    assert_eq!(
        get_data_format(&vec![0x89, 0x50, 0x4e, 0x47, 0x0d, 0x0a, 0x1a, 0x0a]),
        DataFormat::PNG
    );
}

#[test]
fn classify_jpg_prefix() {
    assert_eq!(get_data_format(&vec![0xff, 0xd8, 0xff, 0xe0]), DataFormat::JPG);
}

#[test]
fn classify_webp_riff() {
    let mut buf: Vec<u8> = Vec::new();
    buf.extend_from_slice(b"RIFF");
    buf.extend_from_slice(&[1, 2, 3, 4]);
    buf.extend_from_slice(b"WEBP");
    assert_eq!(get_data_format(&buf), DataFormat::WEBP);
}

#[test]
fn classify_empty_buffer_unknown() {
    assert_eq!(get_data_format(&Vec::new()), DataFormat::UNKNOWN);
}

#[test]
fn classify_one_byte_unknown() {
    assert_eq!(get_data_format(&vec![0x1f]), DataFormat::UNKNOWN);
    assert_eq!(get_data_format(&vec![0x89]), DataFormat::UNKNOWN);
}

#[test]
fn classify_short_riff_unknown() {
    // RIFF header but cut before the WEBP tag: too short for the check
    let mut buf: Vec<u8> = Vec::new();
    buf.extend_from_slice(b"RIFF");
    buf.extend_from_slice(&[1, 2, 3, 4]);
    buf.extend_from_slice(b"WEB");
    assert_eq!(get_data_format(&buf), DataFormat::UNKNOWN);
}

#[test]
fn classify_unrelated_bytes_unknown() {
    assert_eq!(get_data_format(&vec![1, 2, 3, 4, 5, 6, 7, 8, 9, 10, 11, 12]), DataFormat::UNKNOWN);
}

#[test]
fn format_names_round() {
    assert_eq!(DataFormat::new("png"), DataFormat::PNG);
    assert_eq!(DataFormat::new("jpg"), DataFormat::JPG);
    assert_eq!(DataFormat::new("jpeg"), DataFormat::JPG);
    assert_eq!(DataFormat::new("webp"), DataFormat::WEBP);
    assert_eq!(DataFormat::new("json"), DataFormat::JSON);
    assert_eq!(DataFormat::new("pbf"), DataFormat::PBF);
    assert_eq!(DataFormat::new("gzip"), DataFormat::GZIP);
    assert_eq!(DataFormat::new("zlib"), DataFormat::ZLIB);
    assert_eq!(DataFormat::new("bogus"), DataFormat::UNKNOWN);
}

#[test]
fn format_name_strings() {
    assert_eq!(DataFormat::PNG.format(), "png");
    assert_eq!(DataFormat::PBF.format(), "pbf");
    assert_eq!(DataFormat::GZIP.format(), "");
    assert_eq!(DataFormat::UNKNOWN.format(), "");
}

#[test]
fn content_type_strings() {
    assert_eq!(DataFormat::PNG.content_type(), "image/png");
    assert_eq!(DataFormat::JPG.content_type(), "image/jpeg");
    assert_eq!(DataFormat::WEBP.content_type(), "image/webp");
    assert_eq!(DataFormat::JSON.content_type(), "application/json");
    assert_eq!(DataFormat::PBF.content_type(), "application/x-protobuf");
    assert_eq!(DataFormat::UNKNOWN.content_type(), "");
}
