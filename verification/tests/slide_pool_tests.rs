use fastpath_core::error::TileError;
use fastpath_core::format::{LevelInfo, SlideMetadata};
use fastpath_core::pack::LevelSource;
use fastpath_core::packer::pack_level;
use fastpath_core::slide_pool::{SlideEntry, SlidePool, SlideSource};

fn create_test_fastpath() -> SlideSource {
    let metadata = SlideMetadata {
        dimensions: (2048, 2048),
        tile_size: 512,
        levels: vec![
            LevelInfo { level: 1, downsample: 2, cols: 2, rows: 2 },
            LevelInfo { level: 0, downsample: 1, cols: 4, rows: 4 },
        ],
        target_mpp_bits: 0.5f64.to_bits(),
        target_magnification_bits: 20.0f64.to_bits(),
    };
    let mut levels = Vec::new();
    for (level, side) in [(1u32, 2u32), (0u32, 4u32)] {
        let tiles = vec![None; (side * side) as usize];
        let packed = pack_level(level, side, side, &tiles).unwrap();
        levels.push(LevelSource { level, idx_bytes: packed.index, pack_len: 0 });
    }
    SlideSource { metadata, levels }
}

#[test]
fn test_pool_empty_on_creation() {
    let pool = SlidePool::new();
    assert_eq!(pool.len(), 0);
}

#[test]
fn test_pool_load_returns_entry() {
    let mut pool = SlidePool::new();
    pool.load_or_get(1, || Ok(create_test_fastpath())).unwrap();
    let entry = pool.get(1).unwrap();

    assert_eq!(entry.metadata.dimensions, (2048, 2048));
    assert_eq!(entry.metadata.tile_size, 512);
    assert_eq!(entry.metadata.num_levels(), 2);
    assert_eq!(pool.len(), 1);
}

#[test]
fn test_pool_second_call_returns_cached() {
    let mut pool = SlidePool::new();
    pool.load_or_get(1, || Ok(create_test_fastpath())).unwrap();
    let mut other = create_test_fastpath();
    other.metadata.tile_size = 256;
    pool.load_or_get(1, || Ok(other)).unwrap();
    pool.load_or_get(1, || panic!("the slide is read once")).unwrap();

    assert_eq!(pool.get(1).unwrap().metadata.tile_size, 512);
    assert!(std::ptr::eq(pool.get(1).unwrap(), pool.get(1).unwrap()));
    assert_eq!(pool.len(), 1);
}

#[test]
fn test_pool_different_slides_independent() {
    let mut pool = SlidePool::new();
    pool.load_or_get(1, || Ok(create_test_fastpath())).unwrap();
    pool.load_or_get(2, || Ok(create_test_fastpath())).unwrap();

    let entry1 = pool.get(1).unwrap();
    let entry2 = pool.get(2).unwrap();
    assert!(!std::ptr::eq(entry1, entry2));
    assert_eq!(pool.len(), 2);
}

#[test]
fn test_pool_invalid_path_returns_error() {
    let mut pool = SlidePool::new();
    let result = pool
        .load_or_get(1, || Err(TileError::Io("Path does not exist: /nonexistent/path".to_string())));

    assert!(result.is_err());
    assert_eq!(pool.len(), 0);
}

#[test]
fn test_pool_passes_the_read_error_on() {
    let mut pool = SlidePool::new();
    match pool.accept(1, Err(TileError::Json("expected value at line 1".to_string()))) {
        Err(TileError::Json(m)) => assert_eq!(m, "expected value at line 1"),
        other => panic!("unexpected result: {:?}", other),
    }
    assert!(!pool.contains(1));
}

#[test]
fn test_pool_sorts_what_it_takes_in() {
    let mut pool = SlidePool::new();
    pool.accept(9, Ok(create_test_fastpath())).unwrap();
    assert!(pool.contains(9));
    let entry = pool.get(9).unwrap();
    assert_eq!(entry.metadata.levels[0].level, 0);
    assert_eq!(entry.metadata.levels[1].level, 1);
    assert_eq!(entry.pack.num_levels(), 2);
}

#[test]
fn test_entry_checks_the_description_first() {
    let mut source = create_test_fastpath();
    source.metadata.dimensions = (0, 1);
    source.levels.clear();
    match SlideEntry::open(source) {
        Err(TileError::Validation(m)) => assert_eq!(m, "dimensions must be positive"),
        other => panic!("unexpected result: {:?}", other.map(|_| ())),
    }
    let mut source = create_test_fastpath();
    source.levels.clear();
    match SlideEntry::open(source) {
        Err(TileError::Validation(m)) => assert_eq!(m, "No level index files found in tiles/"),
        other => panic!("unexpected result: {:?}", other.map(|_| ())),
    }
}

#[test]
fn test_pool_default_is_empty() {
    let pool = SlidePool::default();
    assert_eq!(pool.len(), 0);
    assert!(pool.get(0).is_none());
}
