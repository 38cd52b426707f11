use fastpath_core::decoder::{
    compressed_from_probed, decode_jpeg_bytes, decode_tile, read_jpeg_bytes, CompressedTileData,
    Decoded, Probed, TileData, TileRead,
};
use fastpath_core::error::TileError;

/// Runs the codec as a host does.
fn codec(data: &[u8]) -> Decoded {
    let mut decoder = zune_jpeg::JpegDecoder::new(data);
    match decoder.decode() {
        Ok(pixels) => match decoder.info() {
            Some(info) => Decoded::Image {
                pixels,
                width: info.width,
                height: info.height,
                components: info.components,
            },
            None => Decoded::NoInfo,
        },
        Err(e) => Decoded::Failed(format!("{:?}", e)),
    }
}

/// Reads and decodes as a host does.
fn got(read: Result<Vec<u8>, TileError>) -> Result<TileRead, TileError> {
    read.map(|jpeg| {
        let decoded = codec(&jpeg);
        TileRead { jpeg, decoded }
    })
}

fn gray_pixel_jpeg() -> Vec<u8> {
    vec![
        0xFF, 0xD8, 0xFF, 0xE0, 0x00, 0x10, 0x4A, 0x46, 0x49, 0x46, 0x00, 0x01, 0x01, 0x00, 0x00,
        0x01, 0x00, 0x01, 0x00, 0x00, 0xFF, 0xDB, 0x00, 0x43, 0x00, 0x08, 0x06, 0x06, 0x07, 0x06,
        0x05, 0x08, 0x07, 0x07, 0x07, 0x09, 0x09, 0x08, 0x0A, 0x0C, 0x14, 0x0D, 0x0C, 0x0B, 0x0B,
        0x0C, 0x19, 0x12, 0x13, 0x0F, 0x14, 0x1D, 0x1A, 0x1F, 0x1E, 0x1D, 0x1A, 0x1C, 0x1C, 0x20,
        0x24, 0x2E, 0x27, 0x20, 0x22, 0x2C, 0x23, 0x1C, 0x1C, 0x28, 0x37, 0x29, 0x2C, 0x30, 0x31,
        0x34, 0x34, 0x34, 0x1F, 0x27, 0x39, 0x3D, 0x38, 0x32, 0x3C, 0x2E, 0x33, 0x34, 0x32, 0xFF,
        0xC0, 0x00, 0x0B, 0x08, 0x00, 0x01, 0x00, 0x01, 0x01, 0x01, 0x11, 0x00, 0xFF, 0xC4, 0x00,
        0x1F, 0x00, 0x00, 0x01, 0x05, 0x01, 0x01, 0x01, 0x01, 0x01, 0x01, 0x00, 0x00, 0x00, 0x00,
        0x00, 0x00, 0x00, 0x00, 0x01, 0x02, 0x03, 0x04, 0x05, 0x06, 0x07, 0x08, 0x09, 0x0A, 0x0B,
        0xFF, 0xC4, 0x00, 0xB5, 0x10, 0x00, 0x02, 0x01, 0x03, 0x03, 0x02, 0x04, 0x03, 0x05, 0x05,
        0x04, 0x04, 0x00, 0x00, 0x01, 0x7D, 0x01, 0x02, 0x03, 0x00, 0x04, 0x11, 0x05, 0x12, 0x21,
        0x31, 0x41, 0x06, 0x13, 0x51, 0x61, 0x07, 0x22, 0x71, 0x14, 0x32, 0x81, 0x91, 0xA1, 0x08,
        0x23, 0x42, 0xB1, 0xC1, 0x15, 0x52, 0xD1, 0xF0, 0x24, 0x33, 0x62, 0x72, 0x82, 0x09, 0x0A,
        0x16, 0x17, 0x18, 0x19, 0x1A, 0x25, 0x26, 0x27, 0x28, 0x29, 0x2A, 0x34, 0x35, 0x36, 0x37,
        0x38, 0x39, 0x3A, 0x43, 0x44, 0x45, 0x46, 0x47, 0x48, 0x49, 0x4A, 0x53, 0x54, 0x55, 0x56,
        0x57, 0x58, 0x59, 0x5A, 0x63, 0x64, 0x65, 0x66, 0x67, 0x68, 0x69, 0x6A, 0x73, 0x74, 0x75,
        0x76, 0x77, 0x78, 0x79, 0x7A, 0x83, 0x84, 0x85, 0x86, 0x87, 0x88, 0x89, 0x8A, 0x92, 0x93,
        0x94, 0x95, 0x96, 0x97, 0x98, 0x99, 0x9A, 0xA2, 0xA3, 0xA4, 0xA5, 0xA6, 0xA7, 0xA8, 0xA9,
        0xAA, 0xB2, 0xB3, 0xB4, 0xB5, 0xB6, 0xB7, 0xB8, 0xB9, 0xBA, 0xC2, 0xC3, 0xC4, 0xC5, 0xC6,
        0xC7, 0xC8, 0xC9, 0xCA, 0xD2, 0xD3, 0xD4, 0xD5, 0xD6, 0xD7, 0xD8, 0xD9, 0xDA, 0xE1, 0xE2,
        0xE3, 0xE4, 0xE5, 0xE6, 0xE7, 0xE8, 0xE9, 0xEA, 0xF1, 0xF2, 0xF3, 0xF4, 0xF5, 0xF6, 0xF7,
        0xF8, 0xF9, 0xFA, 0xFF, 0xDA, 0x00, 0x08, 0x01, 0x01, 0x00, 0x00, 0x3F, 0x00, 0x7B, 0x40,
        0xFF, 0xD9,
    ]
}

fn read_missing_file() -> Result<Vec<u8>, TileError> {
    Err(TileError::Io("/nonexistent/path.jpg: No such file or directory".to_string()))
}

#[test]
fn test_decode_invalid_path() {
    let result = decode_tile(got(read_missing_file()));
    assert!(result.is_err());
}

#[test]
fn test_read_jpeg_bytes_invalid_path() {
    let result = read_jpeg_bytes(read_missing_file());
    assert!(result.is_err());
}

#[test]
fn test_decode_invalid_jpeg() {
    let result = decode_tile(got(Ok(b"not a jpeg".to_vec())));
    assert!(result.is_err());
}

#[test]
fn test_read_jpeg_bytes_invalid_data() {
    let result = read_jpeg_bytes(Ok(b"not a jpeg".to_vec()));
    assert!(result.is_err());
}

#[test]
fn test_compressed_tile_data_size() {
    let data = CompressedTileData {
        jpeg_bytes: bytes::Bytes::from(vec![0u8; 1024]),
        width: 512,
        height: 512,
    };
    assert_eq!(data.size_bytes(), 1024);
}

#[test]
fn test_decode_jpeg_bytes_invalid_data() {
    let bad = CompressedTileData {
        jpeg_bytes: bytes::Bytes::from(b"not a jpeg".to_vec()),
        width: 0,
        height: 0,
    };
    let result = decode_jpeg_bytes(codec(bad.as_slice()));
    assert!(result.is_err());
}

#[test]
fn test_decode_error_is_a_decode_error() {
    let bad = CompressedTileData::new(b"not a jpeg".to_vec(), 0, 0);
    match decode_jpeg_bytes(codec(bad.as_slice())) {
        Err(TileError::Decode(m)) => assert!(m.starts_with("Failed to decode JPEG: ")),
        other => panic!("unexpected result: {:?}", other),
    }
    match read_jpeg_bytes(Ok(b"not a jpeg".to_vec())) {
        Err(TileError::Decode(m)) => assert!(m.starts_with("Failed to parse JPEG header: ")),
        other => panic!("unexpected result: {:?}", other),
    }
}

#[test]
fn test_read_jpeg_bytes_reads_the_dimensions() {
    let jpeg = gray_pixel_jpeg();
    let compressed = read_jpeg_bytes(Ok(jpeg.clone())).unwrap();
    assert_eq!(compressed.width, 1);
    assert_eq!(compressed.height, 1);
    assert_eq!(compressed.jpeg_bytes.as_ref(), jpeg.as_slice());
    assert_eq!(compressed.size_bytes(), jpeg.len());
}

#[test]
fn test_decode_grayscale_gives_rgb() {
    let compressed = CompressedTileData::new(gray_pixel_jpeg(), 0, 0);
    let tile = decode_jpeg_bytes(codec(compressed.as_slice())).unwrap();
    assert_eq!(tile.width, 1);
    assert_eq!(tile.height, 1);
    assert_eq!(tile.data.len(), 3);
    assert_eq!(tile.data[0], tile.data[1]);
    assert_eq!(tile.data[1], tile.data[2]);
    assert_eq!(tile.size_bytes(), 3);
}

#[test]
fn test_decode_is_repeatable() {
    let compressed = CompressedTileData::new(gray_pixel_jpeg(), 0, 0);
    let first = decode_jpeg_bytes(codec(compressed.as_slice())).unwrap();
    let second = decode_jpeg_bytes(codec(compressed.as_slice())).unwrap();
    assert_eq!(first.data, second.data);
    let third = decode_tile(got(Ok(gray_pixel_jpeg()))).unwrap();
    assert_eq!(first.data, third.data);
}

#[test]
fn test_decode_jpeg_bytes_spreads_gray() {
    let d = Decoded::Image { pixels: vec![10, 20], width: 2, height: 1, components: 1 };
    let tile = decode_jpeg_bytes(d).unwrap();
    assert_eq!(tile.data.as_ref(), &[10u8, 10, 10, 20, 20, 20]);
    assert_eq!((tile.width, tile.height), (2, 1));
}

#[test]
fn test_decode_jpeg_bytes_keeps_rgb() {
    let d = Decoded::Image { pixels: vec![1, 2, 3, 4, 5, 6], width: 1, height: 2, components: 3 };
    let tile = decode_jpeg_bytes(d).unwrap();
    assert_eq!(tile.data.as_ref(), &[1u8, 2, 3, 4, 5, 6]);
    assert_eq!((tile.width, tile.height), (1, 2));
}

#[test]
fn test_decode_jpeg_bytes_checks_the_pixel_count() {
    let d = Decoded::Image { pixels: vec![1, 2, 3, 4], width: 1, height: 1, components: 3 };
    match decode_jpeg_bytes(d) {
        Err(TileError::Decode(m)) => {
            assert_eq!(m, "Decoded pixels do not match the image dimensions")
        }
        other => panic!("unexpected result: {:?}", other),
    }
}

#[test]
fn test_decode_jpeg_bytes_reports_the_codec() {
    match decode_jpeg_bytes(Decoded::Failed("bad marker".to_string())) {
        Err(TileError::Decode(m)) => assert_eq!(m, "Failed to decode JPEG: bad marker"),
        other => panic!("unexpected result: {:?}", other),
    }
    match decode_jpeg_bytes(Decoded::NoInfo) {
        Err(TileError::Decode(m)) => assert_eq!(m, "Failed to get image info"),
        other => panic!("unexpected result: {:?}", other),
    }
}

#[test]
fn test_compressed_from_probed() {
    let c = compressed_from_probed(vec![9, 8, 7], Probed::Frame { width: 512, height: 256 })
        .unwrap();
    assert_eq!(c.jpeg_bytes.as_ref(), &[9u8, 8, 7]);
    assert_eq!((c.width, c.height), (512, 256));
    match compressed_from_probed(vec![1], Probed::Failed("eof".to_string())) {
        Err(TileError::Decode(m)) => assert_eq!(m, "Failed to parse JPEG header: eof"),
        other => panic!("unexpected result: {:?}", other),
    }
    match compressed_from_probed(vec![1], Probed::NoInfo) {
        Err(TileError::Decode(m)) => assert_eq!(m, "Failed to get image info from header"),
        other => panic!("unexpected result: {:?}", other),
    }
}

#[test]
fn test_tile_data_shares_its_pixels() {
    let tile = TileData::new(vec![7u8; 12], 2, 2);
    let other = tile.share();
    assert_eq!(other.data, tile.data);
    assert_eq!(other.as_slice(), tile.as_slice());
    assert_eq!(other.data.as_ptr(), tile.data.as_ptr());
}

#[test]
fn test_decode_tile_reads_the_header_first() {
    let d = Decoded::Image { pixels: vec![7], width: 1, height: 1, components: 1 };
    let read = TileRead { jpeg: b"not a jpeg".to_vec(), decoded: d };
    match decode_tile(Ok(read)) {
        Err(TileError::Decode(m)) => assert!(m.starts_with("Failed to parse JPEG header: ")),
        other => panic!("unexpected result: {:?}", other),
    }
    let d = Decoded::Image { pixels: vec![7], width: 1, height: 1, components: 1 };
    let tile = decode_tile(Ok(TileRead { jpeg: gray_pixel_jpeg(), decoded: d })).unwrap();
    assert_eq!(tile.data.as_ref(), &[7u8, 7, 7]);
    match decode_tile(Ok(TileRead { jpeg: gray_pixel_jpeg(), decoded: Decoded::NoInfo })) {
        Err(TileError::Decode(m)) => assert_eq!(m, "Failed to get image info"),
        other => panic!("unexpected result: {:?}", other),
    }
}
