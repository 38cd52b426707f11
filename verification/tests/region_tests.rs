use fastpath_core::decoder::{Decoded, TileData};
use fastpath_core::error::TileError;
use fastpath_core::tile_reader::{decode_tile_bytes, div_floor, Region};

fn refused(r: Result<Region, TileError>) -> String {
    match r {
        Err(TileError::Validation(m)) => m,
        other => panic!("unexpected result: {:?}", other),
    }
}

fn tile(w: u32, h: u32, seed: u8) -> TileData {
    let mut data = Vec::new();
    for i in 0..(w * h * 3) {
        data.push(seed.wrapping_add(i as u8));
    }
    TileData::new(data, w, h)
}

fn all_tiles(region: &mut Region) -> Vec<(u32, u32)> {
    let mut cells = Vec::new();
    while let Some(cell) = region.next_tile() {
        cells.push(cell);
    }
    cells
}

#[test]
fn test_div_floor() {
    assert_eq!(div_floor(7, 2), 3);
    assert_eq!(div_floor(-7, 2), -4);
    assert_eq!(div_floor(-8, 2), -4);
    assert_eq!(div_floor(-1, 512), -1);
    assert_eq!(div_floor(0, 512), 0);
    assert_eq!(div_floor(511, 512), 0);
    assert_eq!(div_floor(i64::MIN, 1), i64::MIN);
    assert_eq!(div_floor(i64::MIN, i64::MAX), -2);
    assert_eq!(div_floor(i64::MAX, i64::MAX), 1);
    for a in -20i64..20 {
        for b in 1i64..6 {
            assert_eq!(div_floor(a, b), a.div_euclid(b));
        }
    }
}

#[test]
fn test_region_is_refused() {
    assert_eq!(refused(Region::new(4, 0, 0, 0, 0, 3)), "Region width and height must be positive");
    assert_eq!(refused(Region::new(4, 0, 0, 0, 3, 0)), "Region width and height must be positive");
    assert_eq!(refused(Region::new(0, 0, 0, 0, 3, 3)), "tile_size must be positive");
    assert_eq!(refused(Region::new(-4, 0, 0, 0, 3, 3)), "tile_size must be positive");
    assert_eq!(refused(Region::new(4, 0, i64::MAX, 0, 1, 1)), "x+w overflow");
    assert_eq!(refused(Region::new(4, 0, 0, i64::MAX - 1, 1, 2)), "y+h overflow");
    assert!(Region::new(4, 0, i64::MAX - 1, i64::MAX - 2, 1, 2).is_ok());
}

#[test]
fn test_region_starts_white() {
    let region = Region::new(4, 0, -3, 5, 3, 2).unwrap();
    assert_eq!(region.into_bytes(), vec![255u8; 18]);
}

#[test]
fn test_region_tiles_in_order() {
    let mut region = Region::new(4, 0, 3, 4, 6, 5).unwrap();
    assert_eq!(all_tiles(&mut region), vec![(0, 1), (1, 1), (2, 1), (0, 2), (1, 2), (2, 2)]);
    assert_eq!(region.next_tile(), None);

    let mut region = Region::new(4, 0, -6, -1, 8, 2).unwrap();
    assert_eq!(all_tiles(&mut region), vec![(0, 0)]);

    let mut region = Region::new(4, 0, -6, -9, 3, 2).unwrap();
    assert_eq!(all_tiles(&mut region), vec![]);

    let mut region = Region::new(4, 0, 4, 8, 4, 4).unwrap();
    assert_eq!(all_tiles(&mut region), vec![(1, 2)]);
}

#[test]
fn test_blit_copies_the_intersection() {
    let mut region = Region::new(2, 0, 1, 1, 3, 2).unwrap();
    let t = tile(2, 2, 10);
    region.blit(0, 0, &t).unwrap();
    let w = 255u8;
    assert_eq!(
        region.into_bytes(),
        vec![19, 20, 21, w, w, w, w, w, w, w, w, w, w, w, w, w, w, w]
    );
}

#[test]
fn test_blit_assembles_a_region_from_four_tiles() {
    let mut region = Region::new(2, 0, 1, 1, 2, 2).unwrap();
    let cells = all_tiles(&mut region);
    assert_eq!(cells, vec![(0, 0), (1, 0), (0, 1), (1, 1)]);
    for (i, (c, r)) in cells.iter().enumerate() {
        region.blit(*c, *r, &tile(2, 2, 50 * i as u8)).unwrap();
    }
    assert_eq!(
        region.into_bytes(),
        vec![9, 10, 11, 56, 57, 58, 103, 104, 105, 150, 151, 152]
    );
}

#[test]
fn test_blit_leaves_uncovered_pixels_white() {
    let mut region = Region::new(4, 0, -1, -1, 4, 3).unwrap();
    region.blit(0, 0, &tile(2, 1, 1)).unwrap();
    let w = 255u8;
    assert_eq!(
        region.into_bytes(),
        vec![
            w, w, w, w, w, w, w, w, w, w, w, w, //
            w, w, w, 1, 2, 3, 4, 5, 6, w, w, w, //
            w, w, w, w, w, w, w, w, w, w, w, w,
        ]
    );
}

#[test]
fn test_blit_of_a_far_tile_changes_nothing() {
    let mut region = Region::new(4, 0, 0, 0, 2, 2).unwrap();
    region.blit(3, 3, &tile(4, 4, 0)).unwrap();
    region.blit(0, 0, &TileData::new(vec![], 0, 0)).unwrap();
    region.blit(0, 0, &TileData::new(vec![1, 2, 3], 0, 5)).unwrap();
    assert_eq!(region.into_bytes(), vec![255u8; 12]);
}

#[test]
fn test_blit_is_refused() {
    let mut region = Region::new(4, 0, 0, 0, 2, 2).unwrap();
    match region.blit(0, 0, &TileData::new(vec![0u8; 11], 2, 2)) {
        Err(TileError::Validation(m)) => {
            assert_eq!(m, "Tile pixels do not match the tile dimensions")
        }
        other => panic!("unexpected result: {:?}", other),
    }
    let mut region = Region::new(i64::MAX, 0, 0, 0, 2, 2).unwrap();
    match region.blit(2, 0, &tile(1, 1, 0)) {
        Err(TileError::Validation(m)) => assert_eq!(m, "tile_x overflow"),
        other => panic!("unexpected result: {:?}", other),
    }
    match region.blit(0, 2, &tile(1, 1, 0)) {
        Err(TileError::Validation(m)) => assert_eq!(m, "tile_y overflow"),
        other => panic!("unexpected result: {:?}", other),
    }
    assert_eq!(region.into_bytes(), vec![255u8; 12]);
}

#[test]
fn test_later_tiles_cover_earlier_ones() {
    let mut region = Region::new(4, 0, 0, 0, 1, 1).unwrap();
    region.blit(0, 0, &tile(1, 1, 10)).unwrap();
    region.blit(0, 0, &tile(1, 1, 90)).unwrap();
    assert_eq!(region.into_bytes(), vec![90, 91, 92]);
}

#[test]
fn test_decode_tile_bytes_rejects_garbage() {
    let mut decoder = zune_jpeg::JpegDecoder::new(b"not a jpeg".as_slice());
    let refusal = match decoder.decode() {
        Ok(_) => panic!("the codec took garbage"),
        Err(e) => format!("{:?}", e),
    };
    let r = decode_tile_bytes(Some(Decoded::Failed(refusal)));
    assert!(matches!(r, Err(TileError::Decode(_))));
}

#[test]
fn test_decode_tile_bytes_of_a_missing_tile() {
    assert!(matches!(decode_tile_bytes(None), Ok(None)));
}

#[test]
fn test_decode_tile_bytes_makes_the_tile() {
    let d = Decoded::Image { pixels: vec![5, 6], width: 1, height: 2, components: 1 };
    let tile = decode_tile_bytes(Some(d)).unwrap().unwrap();
    assert_eq!(tile.data.as_ref(), &[5u8, 5, 5, 6, 6, 6]);
    assert_eq!((tile.width, tile.height), (1, 2));
}
