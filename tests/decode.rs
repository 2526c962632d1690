use base64::Engine;
use std::io::Write;
use tiled::{
    check_tile_count, decode_csv, decode_tile_data, tile_encoding, tiles_from_le_bytes,
    CsvDecodingError, Error, TileEncoding,
};

fn le_bytes(tiles: &[u32]) -> Vec<u8> {
    tiles.iter().flat_map(|t| t.to_le_bytes()).collect()
}

fn base64_text(bytes: &[u8]) -> String {
    base64::engine::general_purpose::STANDARD.encode(bytes)
}

fn zlib(bytes: &[u8]) -> Vec<u8> {
    let mut e = flate2::write::ZlibEncoder::new(Vec::new(), flate2::Compression::default());
    e.write_all(bytes).unwrap();
    e.finish().unwrap()
}

fn gzip(bytes: &[u8]) -> Vec<u8> {
    let mut e = flate2::write::GzEncoder::new(Vec::new(), flate2::Compression::default());
    e.write_all(bytes).unwrap();
    e.finish().unwrap()
}

fn csv_text(tiles: &[u32]) -> String {
    tiles.iter().map(|t| t.to_string()).collect::<Vec<_>>().join(",")
}

const TILES: [u32; 6] = [1, 0, 0x8000_0003, 42, u32::MAX, 7];

#[test]
fn csv_decodes_three_ids() {
    assert_eq!(decode_csv("1,2,3").unwrap(), vec![1, 2, 3]);
    assert_eq!(decode_tile_data("1,2,3", TileEncoding::Csv, 3, 1).unwrap(), vec![1, 2, 3]);
}

#[test]
fn csv_with_non_numeric_token_fails() {
    let r = decode_csv("1,x,3");
    assert!(matches!(r, Err(CsvDecodingError::TileDataParseError(_))));
    let r = decode_tile_data("1,x,3", TileEncoding::Csv, 3, 1);
    assert!(matches!(r, Err(Error::CsvDecodingError(_))));
}

#[test]
fn csv_trims_whitespace_around_fields() {
    assert_eq!(decode_csv("\n1, 2,\n3\n").unwrap(), vec![1, 2, 3]);
    assert_eq!(decode_csv("+5").unwrap(), vec![5]);
    assert!(decode_csv("").is_err());
    assert!(decode_csv("1,,2").is_err());
    assert!(decode_csv("4294967296").is_err());
    assert!(decode_csv("-1").is_err());
}

#[test]
fn csv_round_trip() {
    let text = csv_text(&TILES);
    assert_eq!(decode_tile_data(&text, TileEncoding::Csv, 3, 2).unwrap(), TILES.to_vec());
}

#[test]
fn base64_round_trip() {
    let text = base64_text(&le_bytes(&TILES));
    assert_eq!(decode_tile_data(&text, TileEncoding::Base64, 6, 1).unwrap(), TILES.to_vec());
    let padded = format!("\n   {}\n  ", text);
    assert_eq!(decode_tile_data(&padded, TileEncoding::Base64, 2, 3).unwrap(), TILES.to_vec());
}

#[test]
fn base64_zlib_round_trip() {
    let text = base64_text(&zlib(&le_bytes(&TILES)));
    assert_eq!(decode_tile_data(&text, TileEncoding::Base64Zlib, 3, 2).unwrap(), TILES.to_vec());
}

#[test]
fn base64_gzip_round_trip() {
    let text = base64_text(&gzip(&le_bytes(&TILES)));
    assert_eq!(decode_tile_data(&text, TileEncoding::Base64Gzip, 3, 2).unwrap(), TILES.to_vec());
}

#[test]
fn invalid_base64_fails() {
    let r = decode_tile_data("not base64!", TileEncoding::Base64, 1, 1);
    assert!(matches!(r, Err(Error::Base64DecodingError(_))));
}

#[test]
fn invalid_zlib_stream_fails() {
    let text = base64_text(&le_bytes(&TILES));
    let r = decode_tile_data(&text, TileEncoding::Base64Zlib, 3, 2);
    assert!(matches!(r, Err(Error::DecompressingError(_))));
    let r = decode_tile_data(&text, TileEncoding::Base64Gzip, 3, 2);
    assert!(matches!(r, Err(Error::DecompressingError(_))));
}

#[test]
fn byte_count_not_multiple_of_four_fails() {
    let text = base64_text(&[1, 0, 0, 0, 9]);
    let r = decode_tile_data(&text, TileEncoding::Base64, 1, 1);
    assert!(matches!(r, Err(Error::InvalidTileDataLength { byte_len: 5 })));
    assert!(matches!(tiles_from_le_bytes(&[1, 2, 3]), Err(Error::InvalidTileDataLength { byte_len: 3 })));
}

#[test]
fn little_endian_ids() {
    assert_eq!(tiles_from_le_bytes(&[1, 2, 3, 4, 0xff, 0, 0, 0x80]).unwrap(), vec![0x0403_0201, 0x8000_00ff]);
    assert_eq!(tiles_from_le_bytes(&[]).unwrap(), Vec::<u32>::new());
}

#[test]
fn tile_count_must_match_extent() {
    let r = decode_tile_data("1,2,3", TileEncoding::Csv, 2, 2);
    assert!(matches!(r, Err(Error::InvalidTileCount { expected: 4, found: 3 })));
    assert!(matches!(check_tile_count(vec![1, 2], 1, 1), Err(Error::InvalidTileCount { expected: 1, found: 2 })));
    assert_eq!(check_tile_count(vec![], 0, 5).unwrap(), Vec::<u32>::new());
}

#[test]
fn encoding_pairs() {
    let s = |x: &str| Some(x.to_string());
    assert_eq!(tile_encoding(s("csv"), None).unwrap(), TileEncoding::Csv);
    assert_eq!(tile_encoding(s("base64"), None).unwrap(), TileEncoding::Base64);
    assert_eq!(tile_encoding(s("base64"), s("zlib")).unwrap(), TileEncoding::Base64Zlib);
    assert_eq!(tile_encoding(s("base64"), s("gzip")).unwrap(), TileEncoding::Base64Gzip);
    match tile_encoding(s("csv"), s("zlib")) {
        Err(Error::InvalidEncodingFormat { encoding, compression }) => {
            assert_eq!(encoding.as_deref(), Some("csv"));
            assert_eq!(compression.as_deref(), Some("zlib"));
        }
        other => panic!("unexpected {:?}", other),
    }
    let e = tile_encoding(None, None).unwrap_err();
    assert!(matches!(e, Error::InvalidEncodingFormat { encoding: None, compression: None }));
    assert_eq!(e.message(), "Deprecated combination of encoding and compression");
    let e = tile_encoding(s("base64"), s("lz4")).unwrap_err();
    assert_eq!(
        e.message(),
        "Unknown encoding or compression format or invalid combination of both (for tile layers): base64 encoding with lz4 compression"
    );
}

#[test]
fn wrapped_errors_show_the_inner_text() {
    let e = decode_csv("").unwrap_err();
    assert_eq!(e.message(), "cannot parse integer from empty string");
    let e = decode_csv("4294967296").unwrap_err();
    assert_eq!(e.message(), "number too large to fit in target type");
    let e = decode_tile_data("1,x", TileEncoding::Csv, 2, 1).unwrap_err();
    assert_eq!(e.message(), "invalid digit found in string");
    let e = decode_tile_data("not base64!", TileEncoding::Base64, 1, 1).unwrap_err();
    match &e {
        Error::Base64DecodingError(inner) => assert_eq!(e.message(), inner.to_string()),
        other => panic!("unexpected {:?}", other),
    }
    let e = decode_tile_data("1,2,3", TileEncoding::Csv, 2, 2).unwrap_err();
    assert_eq!(e.message(), "Tile data holds 3 tiles where the layer has 4 cells");
    let e = tiles_from_le_bytes(&[1, 2, 3]).unwrap_err();
    assert_eq!(e.message(), "Tile data of 3 bytes is not a whole number of 4-byte tile ids");
}

#[test]
fn resource_error_names_path_and_cause() {
    let e = Error::ResourceLoadingError {
        path: std::path::PathBuf::from("maps/a.tmx"),
        err: std::io::Error::new(std::io::ErrorKind::NotFound, "nf"),
    };
    assert_eq!(e.message(), "Could not open 'maps/a.tmx'. Error: nf");
}
