use fastpath_core::cache::TileCoord;
use fastpath_core::format::{LevelInfo, SlideMetadata};
use fastpath_core::prefetch::{
    grid_tiles, PrefetchCalculator, PrefetchConfig, Viewport,
};

fn test_metadata() -> SlideMetadata {
    SlideMetadata {
        dimensions: (10000, 10000),
        tile_size: 512,
        levels: vec![
            LevelInfo { level: 0, downsample: 1, cols: 20, rows: 20 },
            LevelInfo { level: 1, downsample: 2, cols: 10, rows: 10 },
            LevelInfo { level: 2, downsample: 4, cols: 5, rows: 5 },
        ],
        target_mpp_bits: 0.5f64.to_bits(),
        target_magnification_bits: 20.0f64.to_bits(),
    }
}

/// The largest downsample that a scale allows: its reciprocal, rounded down.
fn downsample_for(scale: f64) -> u32 {
    (1.0 / scale).floor() as u32
}

fn viewport(x: f64, y: f64, w: f64, h: f64, scale: f64, vx: f64, vy: f64) -> Viewport {
    Viewport::new(
        x.floor() as i64,
        y.floor() as i64,
        ((x + w).ceil() - x.floor()) as i64,
        ((y + h).ceil() - y.floor()) as i64,
        downsample_for(scale),
        vx as i64,
        vy as i64,
    )
}

fn coords(level: u32, cells: &[(u32, u32)]) -> Vec<TileCoord> {
    cells.iter().map(|&(col, row)| TileCoord::new(level, col, row)).collect()
}

#[test]
fn test_level_for_scale() {
    let calc = PrefetchCalculator::new(PrefetchConfig::default());
    let metadata = test_metadata();

    assert_eq!(calc.level_for_scale(&metadata, downsample_for(1.0)), 0);
    assert_eq!(calc.level_for_scale(&metadata, downsample_for(0.5)), 1);
    assert_eq!(calc.level_for_scale(&metadata, downsample_for(0.25)), 2);

    assert_eq!(calc.level_for_scale(&metadata, downsample_for(0.6)), 0);
    assert_eq!(calc.level_for_scale(&metadata, downsample_for(0.3)), 1);
    assert_eq!(calc.level_for_scale(&metadata, downsample_for(0.75)), 0);
}

#[test]
fn test_level_for_scale_without_a_qualifying_level() {
    let calc = PrefetchCalculator::new(PrefetchConfig::default());
    let metadata = test_metadata();
    assert_eq!(calc.level_for_scale(&metadata, downsample_for(2.0)), 0);
    assert_eq!(calc.level_for_scale(&metadata, downsample_for(0.001)), 2);
    assert_eq!(calc.level_for_scale(&metadata, downsample_for(f64::NAN)), 0);
    assert_eq!(calc.level_for_scale(&metadata, downsample_for(-1.0)), 0);
}

#[test]
fn test_level_for_scale_takes_the_highest_number() {
    let calc = PrefetchCalculator::new(PrefetchConfig::default());
    let mut metadata = test_metadata();
    metadata.levels = vec![
        LevelInfo { level: 5, downsample: 1, cols: 1, rows: 1 },
        LevelInfo { level: 9, downsample: 2, cols: 1, rows: 1 },
        LevelInfo { level: 7, downsample: 2, cols: 1, rows: 1 },
        LevelInfo { level: 8, downsample: 16, cols: 1, rows: 1 },
    ];
    assert_eq!(calc.level_for_scale(&metadata, 1), 5);
    assert_eq!(calc.level_for_scale(&metadata, 3), 9);
    assert_eq!(calc.level_for_scale(&metadata, 0), 0);
}

#[test]
fn test_visible_tiles() {
    let calc = PrefetchCalculator::new(PrefetchConfig::default());
    let metadata = test_metadata();

    let viewport = viewport(0.0, 0.0, 1024.0, 1024.0, 1.0, 0.0, 0.0);
    let tiles = calc.visible_tiles(&metadata, &viewport);

    assert!(!tiles.is_empty());
    assert!(tiles.iter().all(|t| t.level == 0));
    assert_eq!(tiles, coords(0, &[(0, 0), (1, 0), (0, 1), (1, 1)]));
}

#[test]
fn test_visible_tiles_are_clamped_to_the_grid() {
    let calc = PrefetchCalculator::new(PrefetchConfig::default());
    let metadata = test_metadata();

    let v = Viewport::new(-700, 9800, 1300, 5000, 1, 0, 0);
    assert_eq!(calc.visible_tiles(&metadata, &v), coords(0, &[(0, 19), (1, 19)]));

    let v = Viewport::new(20000, 0, 1000, 1000, 1, 0, 0);
    assert!(calc.visible_tiles(&metadata, &v).is_empty());

    let v = Viewport::new(-3000, -3000, 1000, 1000, 1, 0, 0);
    assert!(calc.visible_tiles(&metadata, &v).is_empty());

    let v = Viewport::new(100, 100, -50, 10, 1, 0, 0);
    assert_eq!(calc.visible_tiles(&metadata, &v), coords(0, &[(0, 0)]));

    let v = Viewport::new(i64::MAX, i64::MAX, i64::MAX, i64::MAX, 1, 0, 0);
    assert!(calc.visible_tiles(&metadata, &v).is_empty());
}

#[test]
fn test_visible_tiles_at_a_lower_resolution() {
    let calc = PrefetchCalculator::new(PrefetchConfig::default());
    let metadata = test_metadata();
    let v = Viewport::new(1000, 0, 1100, 1024, 2, 0, 0);
    assert_eq!(calc.visible_tiles(&metadata, &v), coords(1, &[(0, 0), (1, 0), (2, 0)]));
}

#[test]
fn test_visible_tiles_of_a_missing_level() {
    let calc = PrefetchCalculator::new(PrefetchConfig::default());
    let mut metadata = test_metadata();
    metadata.levels.remove(0);
    let v = Viewport::new(0, 0, 1024, 1024, 1, 0, 0);
    assert!(calc.visible_tiles(&metadata, &v).is_empty());
    assert!(calc.prefetch_candidates(&metadata, &v).is_empty());
}

#[test]
fn test_prefetch_with_velocity() {
    let calc = PrefetchCalculator::new(PrefetchConfig {
        tiles_ahead: 2,
        tiles_around: 1,
        prefetch_levels: false,
        min_velocity: 50,
    });
    let metadata = test_metadata();

    let viewport = viewport(0.0, 0.0, 1024.0, 1024.0, 1.0, 100.0, 0.0);

    let tiles = calc.prefetch_tiles(&metadata, &viewport, &|_| false);

    assert!(!tiles.is_empty());
}

#[test]
fn test_prefetch_filters_cached() {
    let calc = PrefetchCalculator::new(PrefetchConfig {
        prefetch_levels: false,
        ..Default::default()
    });
    let metadata = test_metadata();
    let viewport = viewport(0.0, 0.0, 512.0, 512.0, 1.0, 0.0, 0.0);

    let tiles = calc.prefetch_tiles(&metadata, &viewport, &|_| true);
    assert!(tiles.is_empty());

    let tiles = calc.prefetch_tiles(&metadata, &viewport, &|_| false);
    assert!(!tiles.is_empty());
}

#[test]
fn test_prefetch_keeps_the_order_of_the_candidates() {
    let calc = PrefetchCalculator::new(PrefetchConfig {
        prefetch_levels: false,
        ..Default::default()
    });
    let metadata = test_metadata();
    let v = Viewport::new(0, 0, 512, 512, 1, 0, 0);
    let candidates = calc.prefetch_candidates(&metadata, &v);
    assert_eq!(candidates, coords(0, &[(0, 0), (1, 0), (0, 1), (1, 1)]));
    let tiles = calc.prefetch_tiles(&metadata, &v, &|c: &TileCoord| c.col == 1 && c.row == 0);
    assert_eq!(tiles, coords(0, &[(0, 0), (0, 1), (1, 1)]));
}

#[test]
fn test_velocity_biased_prefetch() {
    let calc = PrefetchCalculator::new(PrefetchConfig {
        prefetch_levels: false,
        ..Default::default()
    });
    let metadata = test_metadata();

    let still = calc.prefetch_candidates(&metadata, &viewport(0.0, 0.0, 1024.0, 1024.0, 1.0, 0.0, 0.0));
    let moving =
        calc.prefetch_candidates(&metadata, &viewport(0.0, 0.0, 1024.0, 1024.0, 1.0, 200.0, 0.0));

    let max_col_still = still.iter().map(|t| t.col).max().unwrap();
    let max_col_moving = moving.iter().map(|t| t.col).max().unwrap();
    assert_eq!(max_col_still, 2);
    assert_eq!(max_col_moving, 4);
    let ahead: Vec<&TileCoord> = moving.iter().filter(|t| !still.contains(t)).collect();
    assert!(!ahead.is_empty());
    assert!(ahead.iter().all(|t| t.level == 0 && t.col > 2));
    assert!(still.iter().all(|t| moving.contains(t)));
}

#[test]
fn test_velocity_below_the_threshold_does_not_extend() {
    let calc = PrefetchCalculator::new(PrefetchConfig {
        prefetch_levels: false,
        ..Default::default()
    });
    let metadata = test_metadata();
    let at = |vx: i64, vy: i64| {
        calc.prefetch_candidates(&metadata, &Viewport::new(2048, 2048, 1024, 1024, 1, vx, vy))
    };
    let still = at(0, 0);
    assert_eq!(at(49, -49), still);
    assert_ne!(at(50, 0), still);
    assert_ne!(at(0, -50), still);
    let left = at(-200, 0);
    assert_eq!(left.iter().map(|t| t.col).min().unwrap(), 1);
    assert_eq!(left.iter().map(|t| t.col).max().unwrap(), 6);
    assert_eq!(still.iter().map(|t| t.col).min().unwrap(), 3);
    assert_eq!(still.iter().map(|t| t.col).max().unwrap(), 6);
    let up = at(0, -200);
    assert_eq!(up.iter().map(|t| t.row).min().unwrap(), 1);
    assert_eq!(up.iter().map(|t| t.row).max().unwrap(), 6);
}

#[test]
fn test_prefetch_candidates_with_adjacent_levels() {
    let calc = PrefetchCalculator::new(PrefetchConfig {
        tiles_ahead: 2,
        tiles_around: 0,
        prefetch_levels: true,
        min_velocity: 50,
    });
    let metadata = test_metadata();
    let v = Viewport::new(0, 0, 2048, 2048, 2, 0, 0);
    let tiles = calc.prefetch_candidates(&metadata, &v);
    let mut expected = coords(1, &[(0, 0), (1, 0), (0, 1), (1, 1)]);
    expected.extend(coords(2, &[(0, 0)]));
    expected.extend(coords(0, &[(1, 1), (2, 1), (1, 2), (2, 2)]));
    assert_eq!(tiles, expected);
}

#[test]
fn test_prefetch_candidates_hold_each_tile_once() {
    let calc = PrefetchCalculator::new(PrefetchConfig::default());
    let metadata = test_metadata();
    let v = Viewport::new(600, 600, 1500, 900, 1, 300, -300);
    let tiles = calc.prefetch_candidates(&metadata, &v);
    for (i, a) in tiles.iter().enumerate() {
        for b in &tiles[i + 1..] {
            assert_ne!(a, b);
        }
    }
    let visible = calc.visible_tiles(&metadata, &v);
    assert_eq!(&tiles[..visible.len()], visible.as_slice());
}

#[test]
fn test_grid_tiles() {
    assert_eq!(grid_tiles(3, 1, 3, 5, 7), coords(3, &[(1, 5), (2, 5), (1, 6), (2, 6)]));
    assert!(grid_tiles(3, 1, 1, 5, 7).is_empty());
    assert!(grid_tiles(3, 1, 3, 7, 5).is_empty());
}

#[test]
fn test_default_config() {
    let c = PrefetchConfig::default();
    assert_eq!(c.tiles_ahead, 2);
    assert_eq!(c.tiles_around, 1);
    assert!(c.prefetch_levels);
    assert_eq!(c.min_velocity, 50);
}

#[test]
fn test_upper_level_is_found_by_its_number() {
    let calc = PrefetchCalculator::new(PrefetchConfig {
        tiles_ahead: 2,
        tiles_around: 0,
        prefetch_levels: true,
        min_velocity: 50,
    });
    let metadata = SlideMetadata {
        dimensions: (2048, 2048),
        tile_size: 512,
        levels: vec![
            LevelInfo { level: 1, downsample: 2, cols: 2, rows: 2 },
            LevelInfo { level: 2, downsample: 4, cols: 1, rows: 1 },
        ],
        target_mpp_bits: 0,
        target_magnification_bits: 0,
    };
    let v = Viewport::new(0, 0, 1024, 1024, 2, 0, 0);
    let tiles = calc.prefetch_candidates(&metadata, &v);
    let mut expected = coords(1, &[(0, 0)]);
    expected.extend(coords(2, &[(0, 0)]));
    assert_eq!(tiles, expected);

    let gap = SlideMetadata {
        dimensions: (2048, 2048),
        tile_size: 512,
        levels: vec![
            LevelInfo { level: 0, downsample: 1, cols: 4, rows: 4 },
            LevelInfo { level: 2, downsample: 4, cols: 1, rows: 1 },
        ],
        target_mpp_bits: 0,
        target_magnification_bits: 0,
    };
    let v = Viewport::new(0, 0, 512, 512, 1, 0, 0);
    assert_eq!(calc.prefetch_candidates(&gap, &v), coords(0, &[(0, 0)]));
}
