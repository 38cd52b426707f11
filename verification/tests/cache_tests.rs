use std::collections::hash_map::DefaultHasher;
use std::hash::{Hash, Hasher};

use fastpath_core::cache::{
    compute_slide_id, CacheStats, CompressedTileCache, SlideTileCoord, TileCache, TileCoord,
    Weighted,
};
use fastpath_core::decoder::{CompressedTileData, TileData};

fn make_tile(size: usize) -> TileData {
    TileData::new(vec![0u8; size], 1, 1)
}

fn make_compressed_tile(size: usize) -> CompressedTileData {
    CompressedTileData {
        jpeg_bytes: bytes::Bytes::from(vec![0u8; size]),
        width: 512,
        height: 512,
    }
}

fn hit_ratio(stats: &CacheStats) -> f64 {
    let total = stats.hits + stats.misses;
    if total > 0 {
        stats.hits as f64 / total as f64
    } else {
        0.0
    }
}

#[test]
fn test_cache_insert_and_get() {
    let mut cache = TileCache::new(10);
    let coord = TileCoord::new(0, 1, 2);
    let tile = make_tile(1000);

    cache.insert(coord, tile.clone());

    let retrieved = cache.get(&coord);
    assert!(retrieved.is_some());
    assert_eq!(retrieved.unwrap().data.len(), 1000);
}

#[test]
fn test_cache_miss() {
    let mut cache = TileCache::new(10);
    let coord = TileCoord::new(0, 99, 99);

    let result = cache.get(&coord);
    assert!(result.is_none());

    let stats = cache.stats();
    assert_eq!(stats.misses, 1);
    assert_eq!(hit_ratio(&stats), 0.0);
}

#[test]
fn test_cache_hit_stats() {
    let mut cache = TileCache::new(10);
    let coord = TileCoord::new(0, 1, 2);
    cache.insert(coord, make_tile(100));

    cache.get(&coord);
    cache.get(&coord);

    let stats = cache.stats();
    assert_eq!(stats.hits, 2);
    assert_eq!(hit_ratio(&stats), 1.0);
}

#[test]
fn test_cache_clear() {
    let mut cache = TileCache::new(10);
    cache.insert(TileCoord::new(0, 1, 2), make_tile(100));
    cache.insert(TileCoord::new(0, 3, 4), make_tile(100));

    cache.get(&TileCoord::new(0, 1, 2));
    cache.get(&TileCoord::new(0, 99, 99));

    cache.clear();

    assert!(cache.is_empty());
    let stats = cache.stats();
    assert_eq!(stats.size_bytes, 0);
    assert_eq!(stats.hits, 0);
    assert_eq!(stats.misses, 0);
    assert_eq!(hit_ratio(&stats), 0.0);
}

#[test]
fn test_hit_ratio_mixed() {
    let mut cache = TileCache::new(10);
    let coord = TileCoord::new(0, 1, 2);
    cache.insert(coord, make_tile(100));

    cache.get(&coord);
    cache.get(&coord);
    cache.get(&coord);
    cache.get(&TileCoord::new(0, 99, 99));

    let stats = cache.stats();
    assert_eq!(stats.hits, 3);
    assert_eq!(stats.misses, 1);
    assert!((hit_ratio(&stats) - 0.75).abs() < f64::EPSILON);
}

#[test]
fn test_stats_after_clear() {
    let mut cache = TileCache::new(10);
    let coord = TileCoord::new(0, 1, 2);
    cache.insert(coord, make_tile(100));
    cache.stats();

    cache.get(&coord);
    cache.get(&coord);
    cache.get(&TileCoord::new(0, 99, 99));

    let stats = cache.stats();
    assert!(stats.hits > 0);
    assert!(stats.misses > 0);
    assert!(stats.num_tiles > 0);

    cache.clear();

    let stats = cache.stats();
    assert_eq!(stats.hits, 0);
    assert_eq!(stats.misses, 0);
    assert_eq!(hit_ratio(&stats), 0.0);
    assert_eq!(stats.size_bytes, 0);
    assert_eq!(stats.num_tiles, 0);
}

#[test]
fn test_tile_coord_display() {
    let coord = TileCoord::new(2, 5, 3);
    assert_eq!(coord.to_string(), "2/5_3");
}

#[test]
fn test_slide_tile_coord_new() {
    let c = SlideTileCoord::new(42, 3, 10, 20);
    assert_eq!(c.slide_id, 42);
    assert_eq!(c.level, 3);
    assert_eq!(c.col, 10);
    assert_eq!(c.row, 20);
}

#[test]
fn test_slide_tile_coord_equality() {
    let a = SlideTileCoord::new(1, 2, 3, 4);
    let b = SlideTileCoord::new(1, 2, 3, 4);
    let c = SlideTileCoord::new(99, 2, 3, 4);
    assert_eq!(a, b);
    assert_ne!(a, c);
}

#[test]
fn test_slide_tile_coord_hash_differs_by_slide_id() {
    let hash_of = |c: &SlideTileCoord| -> u64 {
        let mut h = DefaultHasher::new();
        c.hash(&mut h);
        h.finish()
    };

    let a = SlideTileCoord::new(1, 0, 5, 5);
    let b = SlideTileCoord::new(2, 0, 5, 5);
    assert_ne!(hash_of(&a), hash_of(&b));
}

#[test]
fn test_slide_tile_coord_copy() {
    let a = SlideTileCoord::new(1, 2, 3, 4);
    let b = a;
    assert_eq!(a, b);
}

#[test]
fn test_compute_slide_id_deterministic() {
    let id1 = compute_slide_id("/slides/test.fastpath");
    let id2 = compute_slide_id("/slides/test.fastpath");
    assert_eq!(id1, id2);
}

#[test]
fn test_compute_slide_id_different_paths_differ() {
    let id1 = compute_slide_id("/slides/a.fastpath");
    let id2 = compute_slide_id("/slides/b.fastpath");
    assert_ne!(id1, id2);
}

#[test]
fn test_compute_slide_id_empty_string() {
    let _id = compute_slide_id("");
}

#[test]
fn test_compute_slide_id_is_the_standard_string_hash() {
    let path = "/slides/test.fastpath";
    let mut h = DefaultHasher::new();
    path.hash(&mut h);
    assert_eq!(compute_slide_id(path), h.finish());
}

#[test]
fn test_compressed_cache_insert_and_get() {
    let mut cache = CompressedTileCache::new(10);
    let coord = SlideTileCoord::new(1, 0, 1, 2);
    let tile = make_compressed_tile(500);

    cache.insert(coord, tile);

    let retrieved = cache.get(&coord);
    assert!(retrieved.is_some());
    assert_eq!(retrieved.unwrap().jpeg_bytes.len(), 500);
}

#[test]
fn test_compressed_cache_miss() {
    let mut cache = CompressedTileCache::new(10);
    let coord = SlideTileCoord::new(1, 0, 99, 99);

    let result = cache.get(&coord);
    assert!(result.is_none());

    let stats = cache.stats();
    assert_eq!(stats.misses, 1);
    assert_eq!(hit_ratio(&stats), 0.0);
}

#[test]
fn test_compressed_cache_hit_stats() {
    let mut cache = CompressedTileCache::new(10);
    let coord = SlideTileCoord::new(1, 0, 1, 2);
    cache.insert(coord, make_compressed_tile(100));

    cache.get(&coord);
    cache.get(&coord);

    let stats = cache.stats();
    assert_eq!(stats.hits, 2);
    assert_eq!(hit_ratio(&stats), 1.0);
}

#[test]
fn test_compressed_cache_mixed_hit_ratio() {
    let mut cache = CompressedTileCache::new(10);
    let coord = SlideTileCoord::new(1, 0, 1, 2);
    cache.insert(coord, make_compressed_tile(100));

    cache.get(&coord);
    cache.get(&coord);
    cache.get(&coord);
    cache.get(&SlideTileCoord::new(1, 0, 99, 99));

    let stats = cache.stats();
    assert_eq!(stats.hits, 3);
    assert_eq!(stats.misses, 1);
    assert!((hit_ratio(&stats) - 0.75).abs() < f64::EPSILON);
}

#[test]
fn test_compressed_cache_contains() {
    let mut cache = CompressedTileCache::new(10);
    let coord = SlideTileCoord::new(1, 0, 1, 2);

    assert!(!cache.contains(&coord));
    cache.insert(coord, make_compressed_tile(100));
    assert!(cache.contains(&coord));
}

#[test]
fn test_compressed_cache_multi_slide_isolation() {
    let mut cache = CompressedTileCache::new(10);
    let coord_a = SlideTileCoord::new(1, 0, 5, 5);
    let coord_b = SlideTileCoord::new(2, 0, 5, 5);

    cache.insert(coord_a, make_compressed_tile(100));

    assert!(cache.get(&coord_a).is_some());
    assert!(cache.get(&coord_b).is_none());
}

#[test]
fn test_compressed_cache_is_empty() {
    let mut cache = CompressedTileCache::new(10);
    assert!(cache.is_empty());

    cache.insert(SlideTileCoord::new(1, 0, 0, 0), make_compressed_tile(100));
    cache.stats();
    assert!(!cache.is_empty());
}

#[test]
fn test_compressed_cache_reset_stats_preserves_tiles() {
    let mut cache = CompressedTileCache::new(10);
    let coord = SlideTileCoord::new(1, 0, 1, 2);
    cache.insert(coord, make_compressed_tile(100));
    cache.stats();

    cache.get(&coord);
    cache.get(&SlideTileCoord::new(1, 0, 99, 99));

    let stats_before = cache.stats();
    assert!(stats_before.hits > 0);
    assert!(stats_before.misses > 0);
    assert!(stats_before.num_tiles > 0);

    cache.reset_stats();

    let stats_after = cache.stats();
    assert_eq!(stats_after.hits, 0);
    assert_eq!(stats_after.misses, 0);
    assert_eq!(hit_ratio(&stats_after), 0.0);
    assert!(stats_after.num_tiles > 0);
    assert!(cache.get(&coord).is_some());
}

#[test]
fn test_compressed_cache_weighted_size() {
    let mut cache = CompressedTileCache::new(10);
    let coord = SlideTileCoord::new(1, 0, 0, 0);
    cache.insert(coord, make_compressed_tile(2048));

    let stats = cache.stats();
    assert_eq!(stats.size_bytes, 2048);
}

#[test]
fn test_compressed_cache_no_clear_method() {
    let mut cache = CompressedTileCache::new(10);
    let coord = SlideTileCoord::new(1, 0, 1, 2);
    cache.insert(coord, make_compressed_tile(100));

    cache.reset_stats();

    assert!(cache.contains(&coord));
    assert!(cache.get(&coord).is_some());
}

#[test]
fn test_cache_returns_what_was_inserted() {
    let mut cache = TileCache::new(10);
    let coord = TileCoord::new(3, 4, 5);
    cache.insert(coord, TileData::new(vec![1, 2, 3, 4, 5, 6], 2, 1));

    let tile = cache.get(&coord).unwrap();
    assert_eq!(tile.data.as_ref(), &[1u8, 2, 3, 4, 5, 6]);
    assert_eq!(tile.width, 2);
    assert_eq!(tile.height, 1);
    assert!(cache.get(&TileCoord::new(3, 4, 6)).is_none());
}

#[test]
fn test_cache_stays_within_its_bound() {
    let mut cache = TileCache::new(1);
    let bound = 1024 * 1024;
    for i in 0..64u32 {
        let coord = TileCoord::new(0, i, 0);
        cache.insert(coord, make_tile(100_000));
        cache.get(&coord);
        let stats = cache.stats();
        assert!(stats.size_bytes <= bound);
    }
}

#[test]
fn test_cache_with_no_room_holds_nothing() {
    let mut cache = TileCache::new(0);
    let coord = TileCoord::new(0, 0, 0);
    cache.insert(coord, make_tile(10));
    cache.stats();
    assert!(cache.get(&coord).is_none());
}

#[test]
fn test_weighted_size_bytes() {
    assert_eq!(Weighted::size_bytes(&make_tile(300)), 300);
    assert_eq!(Weighted::size_bytes(&make_compressed_tile(70)), 70);
}

#[test]
fn test_cache_never_returns_what_was_not_put_in() {
    let mut cache = TileCache::new(1);
    let mut model: std::collections::HashMap<(u32, u32, u32), u8> =
        std::collections::HashMap::new();
    let mut seed: u32 = 12345;
    for step in 0..4000u32 {
        seed = seed.wrapping_mul(1664525).wrapping_add(1013904223);
        let key = (0, (seed >> 8) % 40, (seed >> 16) % 3);
        let coord = TileCoord::new(key.0, key.1, key.2);
        if step % 3 == 0 {
            let fill = (seed >> 24) as u8;
            cache.insert(coord, TileData::new(vec![fill; 60_000], 100, 200));
            model.insert(key, fill);
        } else {
            let held = cache.contains(&coord);
            let got = cache.get(&coord);
            assert_eq!(held, got.is_some());
            if let Some(tile) = got {
                let fill = model[&key];
                assert_eq!(tile.data.len(), 60_000);
                assert!(tile.data.iter().all(|b| *b == fill));
                assert_eq!((tile.width, tile.height), (100, 200));
            }
        }
        if step % 500 == 0 {
            let stats = cache.stats();
            assert!(stats.size_bytes <= 1024 * 1024);
        }
    }
    let stats = cache.stats();
    assert_eq!(stats.hits + stats.misses, 4000 - 1334);
    cache.clear();
    for (key, _) in model {
        assert!(!cache.contains(&TileCoord::new(key.0, key.1, key.2)));
    }
}

#[test]
fn test_cache_clear_keeps_the_size_limit() {
    let mut cache = TileCache::new(1);
    cache.insert(TileCoord::new(0, 0, 0), make_tile(2 * 1024 * 1024));
    cache.stats();
    assert!(!cache.contains(&TileCoord::new(0, 0, 0)));

    cache.clear();
    cache.insert(TileCoord::new(0, 0, 0), make_tile(2 * 1024 * 1024));
    cache.insert(TileCoord::new(0, 1, 0), make_tile(1000));
    let stats = cache.stats();
    assert!(!cache.contains(&TileCoord::new(0, 0, 0)));
    assert!(cache.contains(&TileCoord::new(0, 1, 0)));
    assert_eq!((stats.num_tiles, stats.size_bytes), (1, 1000));
}

#[test]
fn test_cache_clear_empties_at_once() {
    let mut cache = CompressedTileCache::new(10);
    cache.insert(SlideTileCoord::new(1, 0, 0, 0), make_compressed_tile(70));
    cache.insert(SlideTileCoord::new(1, 0, 1, 0), make_compressed_tile(70));
    cache.clear();
    assert!(!cache.contains(&SlideTileCoord::new(1, 0, 0, 0)));
    assert!(!cache.contains(&SlideTileCoord::new(1, 0, 1, 0)));
    assert!(cache.is_empty());
    assert!(cache.get(&SlideTileCoord::new(1, 0, 0, 0)).is_none());
    let stats = cache.stats();
    assert_eq!((stats.hits, stats.misses), (0, 1));
    assert_eq!((stats.num_tiles, stats.size_bytes), (0, 0));
}

#[test]
fn test_unused_cache_reports_nothing() {
    let mut cache = TileCache::new(10);
    let stats = cache.stats();
    assert_eq!((stats.num_tiles, stats.size_bytes), (0, 0));
    assert!(cache.get(&TileCoord::new(0, 0, 0)).is_none());
    let stats = cache.stats();
    assert_eq!((stats.num_tiles, stats.size_bytes), (0, 0));
    assert_eq!((stats.hits, stats.misses), (0, 1));
}
