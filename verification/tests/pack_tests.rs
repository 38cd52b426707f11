use fastpath_core::error::TileError;
use fastpath_core::pack::{
    index_file_name, index_level_of, pack_name, LevelPack, LevelSource, PackTileRef, TilePack,
};
use fastpath_core::packer::{pack_level, tile_key, tile_stem, LevelPacker};

fn header(version: u32, cols: u16, rows: u16) -> Vec<u8> {
    let mut idx = b"FPLIDX1\0".to_vec();
    idx.extend_from_slice(&version.to_le_bytes());
    idx.extend_from_slice(&cols.to_le_bytes());
    idx.extend_from_slice(&rows.to_le_bytes());
    idx
}

fn entry(idx: &mut Vec<u8>, offset: u64, length: u32) {
    idx.extend_from_slice(&offset.to_le_bytes());
    idx.extend_from_slice(&length.to_le_bytes());
}

fn validation(r: Result<LevelPack, TileError>) -> String {
    match r {
        Err(TileError::Validation(m)) => m,
        other => panic!("unexpected result: {:?}", other),
    }
}

fn open_error(r: Result<TilePack, TileError>) -> String {
    match r {
        Err(TileError::Validation(m)) => m,
        other => panic!("unexpected result: {:?}", other),
    }
}

#[test]
fn test_parse_reads_the_entries() {
    let mut idx = header(1, 2, 1);
    entry(&mut idx, 0, 10);
    entry(&mut idx, 10, 5);
    let pack = LevelPack::parse(3, &idx, 15).unwrap();
    assert_eq!(pack.level(), 3);
    assert_eq!(pack.cols(), 2);
    assert_eq!(pack.rows(), 1);
    assert_eq!(pack.pack_len(), 15);
    let e = pack.entry(1, 0).unwrap();
    assert_eq!((e.offset, e.length), (10, 5));
    assert!(pack.entry(2, 0).is_none());
    assert!(pack.entry(0, 1).is_none());
}

#[test]
fn test_parse_ignores_bytes_behind_the_table() {
    let mut idx = header(1, 1, 1);
    entry(&mut idx, 4, 4);
    idx.extend_from_slice(&[1, 2, 3]);
    let pack = LevelPack::parse(0, &idx, 8).unwrap();
    assert_eq!(pack.entry(0, 0).unwrap().offset, 4);
}

#[test]
fn test_parse_rejects_short_index() {
    let idx = header(1, 1, 1);
    assert_eq!(validation(LevelPack::parse(7, &idx[..15], 0)), "level_7.idx is too small");
    assert_eq!(validation(LevelPack::parse(7, &[], 0)), "level_7.idx is too small");
}

#[test]
fn test_parse_rejects_bad_magic() {
    let mut idx = header(1, 1, 1);
    entry(&mut idx, 0, 0);
    idx[6] = b'2';
    assert_eq!(validation(LevelPack::parse(0, &idx, 0)), "level_0.idx magic mismatch");
}

#[test]
fn test_parse_rejects_wrong_version() {
    let mut idx = header(2, 1, 1);
    entry(&mut idx, 0, 0);
    assert_eq!(validation(LevelPack::parse(4, &idx, 0)), "Unsupported level_4.idx version: 2");
}

#[test]
fn test_parse_rejects_zero_grid() {
    let idx = header(1, 0, 3);
    assert_eq!(validation(LevelPack::parse(1, &idx, 0)), "level_1.idx has zero cols/rows");
    let idx = header(1, 3, 0);
    assert_eq!(validation(LevelPack::parse(1, &idx, 0)), "level_1.idx has zero cols/rows");
}

#[test]
fn test_parse_rejects_truncated_table() {
    let mut idx = header(1, 2, 2);
    entry(&mut idx, 0, 1);
    entry(&mut idx, 1, 1);
    entry(&mut idx, 2, 1);
    idx.extend_from_slice(&[0u8; 11]);
    assert_eq!(validation(LevelPack::parse(2, &idx, 100)), "level_2.idx missing entry table");
}

#[test]
fn test_parse_rejects_entry_beyond_pack() {
    let mut idx = header(1, 2, 1);
    entry(&mut idx, 0, 10);
    entry(&mut idx, 10, 6);
    assert_eq!(validation(LevelPack::parse(5, &idx, 15)), "level_5.idx entry exceeds pack size");
    assert!(LevelPack::parse(5, &idx, 16).is_ok());

    let mut idx = header(1, 1, 1);
    entry(&mut idx, u64::MAX, 2);
    assert_eq!(
        validation(LevelPack::parse(5, &idx, u64::MAX)),
        "level_5.idx entry exceeds pack size"
    );
}

#[test]
fn test_parse_reports_the_first_fault() {
    let mut idx = header(9, 0, 0);
    idx[0] = b'X';
    assert_eq!(validation(LevelPack::parse(0, &idx, 0)), "level_0.idx magic mismatch");
}

#[test]
fn test_pack_dzsave_tiles_writes_pack_and_cleans_up() {
    let jpeg: Vec<u8> = vec![0xFF, 0xD8, 1, 2, 3, 4, 5, 0xFF, 0xD9];

    let level0 = pack_level(0, 2, 1, &vec![Some(jpeg.clone()), None]).unwrap();
    let level1 = pack_level(1, 1, 1, &vec![Some(jpeg.clone())]).unwrap();

    let pack = TilePack::open(&vec![
        LevelSource {
            level: 0,
            idx_bytes: level0.index.clone(),
            pack_len: level0.pack.len() as u64,
        },
        LevelSource {
            level: 1,
            idx_bytes: level1.index.clone(),
            pack_len: level1.pack.len() as u64,
        },
    ])
    .unwrap();

    let t0 = pack.tile_ref(0, 0, 0).unwrap();
    let b0 = pack.read_tile_bytes(t0, &level0.pack).unwrap();
    assert_eq!(b0.as_ref(), jpeg.as_slice());

    assert!(pack.tile_ref(0, 1, 0).is_none());

    let t1 = pack.tile_ref(1, 0, 0).unwrap();
    let b1 = pack.read_tile_bytes(t1, &level1.pack).unwrap();
    assert_eq!(b1.as_ref(), jpeg.as_slice());
}

#[test]
fn test_pack_level_writes_the_format() {
    let packed = pack_level(0, 2, 2, &vec![Some(vec![1, 2, 3]), None, Some(vec![]), Some(vec![9])])
        .unwrap();
    let mut expected = header(1, 2, 2);
    entry(&mut expected, 0, 3);
    entry(&mut expected, 0, 0);
    entry(&mut expected, 3, 0);
    entry(&mut expected, 3, 1);
    assert_eq!(packed.index, expected);
    assert_eq!(packed.pack, vec![1, 2, 3, 9]);
}

#[test]
fn test_pack_round_trip() {
    let cols = 3u32;
    let rows = 2u32;
    let mut tiles: Vec<Option<Vec<u8>>> = Vec::new();
    for i in 0..(cols * rows) {
        if i % 3 == 1 {
            tiles.push(None);
        } else {
            tiles.push(Some((0..(i as u8 * 7 + 1)).collect()));
        }
    }
    let packed = pack_level(4, cols, rows, &tiles).unwrap();
    let pack = TilePack::open(&vec![LevelSource {
        level: 4,
        idx_bytes: packed.index.clone(),
        pack_len: packed.pack.len() as u64,
    }])
    .unwrap();
    for row in 0..rows {
        for col in 0..cols {
            let i = (row * cols + col) as usize;
            match &tiles[i] {
                Some(data) => {
                    let r = pack.tile_ref(4, col, row).unwrap();
                    assert_eq!(r.length as usize, data.len());
                    let bytes = pack.read_tile_bytes(r, &packed.pack).unwrap();
                    assert_eq!(bytes.as_ref(), data.as_slice());
                    let (start, end) = pack.tile_span(r).unwrap();
                    assert_eq!(&packed.pack[start as usize..end as usize], data.as_slice());
                }
                None => assert!(pack.tile_ref(4, col, row).is_none()),
            }
        }
    }
    assert!(pack.tile_ref(4, cols, 0).is_none());
    assert!(pack.tile_ref(4, 0, rows).is_none());
    assert!(pack.tile_ref(5, 0, 0).is_none());
}

#[test]
fn test_pack_level_refuses() {
    match pack_level(3, 70000, 1, &vec![]) {
        Err(TileError::Validation(m)) => assert_eq!(m, "level 3 cols exceeds u16: 70000"),
        other => panic!("unexpected result: {:?}", other),
    }
    match pack_level(3, 1, 65536, &vec![]) {
        Err(TileError::Validation(m)) => assert_eq!(m, "level 3 rows exceeds u16: 65536"),
        other => panic!("unexpected result: {:?}", other),
    }
    match pack_level(3, 2, 2, &vec![None, None, None]) {
        Err(TileError::Validation(m)) => assert_eq!(m, "level 3 has 4 cells, got 3 tiles"),
        other => panic!("unexpected result: {:?}", other),
    }
}

#[test]
fn test_level_packer_streams_the_index() {
    let mut packer = LevelPacker::new(2, 2, 1).unwrap();
    assert_eq!(packer.next_cell(), Some((0, 0)));
    packer.push_tile(5, "0_0.jpg").unwrap();
    assert_eq!(packer.pack_offset(), 5);
    assert_eq!(packer.next_cell(), Some((1, 0)));
    packer.push_missing().unwrap();
    assert_eq!(packer.next_cell(), None);
    match packer.push_missing() {
        Err(TileError::Validation(m)) => assert_eq!(m, "more tiles than grid cells"),
        other => panic!("unexpected result: {:?}", other),
    }
    match packer.push_tile(1, "x") {
        Err(TileError::Validation(m)) => assert_eq!(m, "more tiles than grid cells"),
        other => panic!("unexpected result: {:?}", other),
    }
    let mut expected = header(1, 2, 1);
    entry(&mut expected, 0, 5);
    entry(&mut expected, 0, 0);
    assert_eq!(packer.into_index(), expected);
}

#[test]
fn test_level_packer_goes_row_by_row() {
    let mut packer = LevelPacker::new(0, 2, 2).unwrap();
    let mut cells = Vec::new();
    while let Some(cell) = packer.next_cell() {
        cells.push(cell);
        packer.push_missing().unwrap();
    }
    assert_eq!(cells, vec![(0, 0), (1, 0), (0, 1), (1, 1)]);
}

#[test]
fn test_level_packer_refuses_offset_overflow() {
    if usize::MAX as u64 == u64::MAX {
        let mut packer = LevelPacker::new(0, 3, 1).unwrap();
        packer.push_tile(0xffff_ffff, "a").unwrap();
        match packer.push_tile(0x1_0000_0000, "tiles/1_0.jpg") {
            Err(TileError::Validation(m)) => {
                assert_eq!(m, "Tile too large to pack (4294967296 bytes): tiles/1_0.jpg")
            }
            other => panic!("unexpected result: {:?}", other),
        }
        assert_eq!(packer.next_cell(), Some((1, 0)));
    }
}

#[test]
fn test_open_sorts_the_levels() {
    let a = pack_level(2, 1, 1, &vec![Some(vec![1])]).unwrap();
    let b = pack_level(0, 1, 1, &vec![Some(vec![2, 2])]).unwrap();
    let pack = TilePack::open(&vec![
        LevelSource { level: 2, idx_bytes: a.index, pack_len: 1 },
        LevelSource { level: 0, idx_bytes: b.index, pack_len: 2 },
    ])
    .unwrap();
    assert_eq!(pack.num_levels(), 2);
    assert_eq!(pack.tile_ref(2, 0, 0).unwrap().length, 1);
    assert_eq!(pack.tile_ref(0, 0, 0).unwrap().length, 2);
    assert!(pack.tile_ref(1, 0, 0).is_none());
}

#[test]
fn test_open_refuses() {
    assert_eq!(open_error(TilePack::open(&vec![])), "No level index files found in tiles/");

    let a = pack_level(1, 1, 1, &vec![None]).unwrap();
    let dup = vec![
        LevelSource { level: 3, idx_bytes: a.index.clone(), pack_len: 0 },
        LevelSource { level: 1, idx_bytes: a.index.clone(), pack_len: 0 },
        LevelSource { level: 3, idx_bytes: a.index.clone(), pack_len: 0 },
        LevelSource { level: 1, idx_bytes: a.index.clone(), pack_len: 0 },
    ];
    assert_eq!(open_error(TilePack::open(&dup)), "Duplicate level index: 1");

    let bad = vec![
        LevelSource { level: 3, idx_bytes: a.index.clone(), pack_len: 0 },
        LevelSource { level: 3, idx_bytes: vec![1, 2, 3], pack_len: 0 },
        LevelSource { level: 4, idx_bytes: vec![], pack_len: 0 },
    ];
    assert_eq!(open_error(TilePack::open(&bad)), "level_3.idx is too small");
}

#[test]
fn test_tile_span_refuses() {
    let a = pack_level(1, 1, 1, &vec![Some(vec![0u8; 10])]).unwrap();
    let pack =
        TilePack::open(&vec![LevelSource { level: 1, idx_bytes: a.index, pack_len: 10 }]).unwrap();
    let span = |r: PackTileRef| match pack.tile_span(r) {
        Err(TileError::Validation(m)) => m,
        other => panic!("unexpected result: {:?}", other),
    };
    assert_eq!(span(PackTileRef { level: 1, offset: 0, length: 0 }), "zero-length tile");
    assert_eq!(span(PackTileRef { level: 2, offset: 0, length: 1 }), "Unknown level 2");
    assert_eq!(
        span(PackTileRef { level: 1, offset: u64::MAX, length: 1 }),
        "tile offset overflow"
    );
    assert_eq!(
        span(PackTileRef { level: 1, offset: 5, length: 6 }),
        "tile byte range exceeds pack size"
    );
    assert_eq!(pack.tile_span(PackTileRef { level: 1, offset: 5, length: 5 }).unwrap(), (5, 10));
}

#[test]
fn test_read_tile_bytes_from_a_short_pack() {
    let a = pack_level(1, 1, 1, &vec![Some(vec![7u8; 10])]).unwrap();
    let pack =
        TilePack::open(&vec![LevelSource { level: 1, idx_bytes: a.index, pack_len: 10 }]).unwrap();
    let r = pack.tile_ref(1, 0, 0).unwrap();
    match pack.read_tile_bytes(r, &a.pack[..9]) {
        Err(TileError::Io(m)) => assert_eq!(m, "pack ends before the tile does"),
        other => panic!("unexpected result: {:?}", other),
    }
    assert_eq!(pack.read_tile_bytes(r, &a.pack).unwrap().as_ref(), &[7u8; 10]);
}

#[test]
fn test_index_level_of() {
    assert_eq!(index_level_of("level_0.idx").unwrap().unwrap(), 0);
    assert_eq!(index_level_of("level_12.idx").unwrap().unwrap(), 12);
    assert_eq!(index_level_of("level_+3.idx").unwrap().unwrap(), 3);
    assert!(index_level_of("level_0.pack").is_none());
    assert!(index_level_of("level0.idx").is_none());
    assert!(index_level_of("metadata.json").is_none());
    assert!(index_level_of("level.idx").is_none());
    match index_level_of("level_.idx") {
        Some(Err(TileError::Validation(m))) => assert_eq!(m, "Invalid level index: "),
        other => panic!("unexpected result: {:?}", other),
    }
    match index_level_of("level_1x.idx") {
        Some(Err(TileError::Validation(m))) => assert_eq!(m, "Invalid level index: 1x"),
        other => panic!("unexpected result: {:?}", other),
    }
    match index_level_of("level_4294967296.idx") {
        Some(Err(TileError::Validation(m))) => assert_eq!(m, "Invalid level index: 4294967296"),
        other => panic!("unexpected result: {:?}", other),
    }
}

#[test]
fn test_file_names() {
    assert_eq!(pack_name(7), "level_7.pack");
    assert_eq!(index_file_name(7), "level_7.idx");
    assert_eq!(index_level_of(&index_file_name(31)).unwrap().unwrap(), 31);
    assert_eq!(tile_key(5, 3), "5_3");
    assert_eq!(tile_stem("5_3.jpg").unwrap(), "5_3");
    assert_eq!(tile_stem("5_3.jpeg").unwrap(), "5_3");
    assert_eq!(tile_stem(".jpg").unwrap(), "");
    assert!(tile_stem("5_3.png").is_none());
    assert!(tile_stem("jpg").is_none());
    assert_eq!(tile_stem("a.jpeg.jpg").unwrap(), "a.jpeg");
}

#[test]
fn test_every_reference_lies_within_its_pack() {
    let tiles = vec![Some(vec![1u8, 2, 3]), None, Some(vec![4u8]), Some(vec![5u8, 6])];
    let packed = fastpath_core::packer::pack_level(3, 2, 2, &tiles).unwrap();
    let pack_len = packed.pack.len() as u64;
    let pack = TilePack::open(&vec![LevelSource { level: 3, idx_bytes: packed.index, pack_len }])
        .unwrap();
    for row in 0..2 {
        for col in 0..2 {
            match pack.tile_ref(3, col, row) {
                Some(r) => {
                    let (start, end) = pack.tile_span(r).unwrap();
                    assert_eq!(start, r.offset);
                    assert_eq!(end, r.offset + u64::from(r.length));
                    assert!(end <= pack_len);
                }
                None => assert_eq!((col, row), (1, 0)),
            }
        }
    }
}
