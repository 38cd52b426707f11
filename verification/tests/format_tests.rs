use fastpath_core::error::TileError;
use fastpath_core::format::{LevelInfo, SlideMetadata, TilePathResolver};

fn valid_metadata() -> SlideMetadata {
    SlideMetadata {
        dimensions: (1000, 2000),
        tile_size: 512,
        levels: vec![
            LevelInfo { level: 0, downsample: 8, cols: 1, rows: 1 },
            LevelInfo { level: 1, downsample: 4, cols: 2, rows: 4 },
            LevelInfo { level: 2, downsample: 1, cols: 4, rows: 8 },
        ],
        target_mpp_bits: 0.5f64.to_bits(),
        target_magnification_bits: 20.0f64.to_bits(),
    }
}

#[test]
fn test_dzsave_format_path() {
    let resolver = TilePathResolver::new("/slides/a.fastpath".to_string()).unwrap();

    let path = resolver.get_tile_path(0, 5, 3);
    assert!(path.is_some());
    assert!(path.unwrap().ends_with("tiles_files/0/5_3.jpg"));
}

#[test]
fn test_missing_tile_returns_path() {
    let resolver = TilePathResolver::new("/slides/a.fastpath".to_string()).unwrap();

    let path = resolver.get_tile_path(0, 99, 99);
    assert!(path.is_some());
    assert!(path.unwrap().ends_with("tiles_files/0/99_99.jpg"));
}

#[test]
fn test_tile_path_is_below_the_directory() {
    let resolver = TilePathResolver::new("/slides/a.fastpath".to_string()).unwrap();
    assert_eq!(
        resolver.get_tile_path(12, 0, 4294967295).unwrap(),
        "/slides/a.fastpath/tiles_files/12/0_4294967295.jpg"
    );
}

fn number(v: &serde_json::Value) -> u32 {
    v.as_u64().unwrap() as u32
}

fn parse_metadata(json: &str) -> SlideMetadata {
    let v: serde_json::Value = serde_json::from_str(json).unwrap();
    SlideMetadata {
        dimensions: (number(&v["dimensions"][0]), number(&v["dimensions"][1])),
        tile_size: number(&v["tile_size"]),
        levels: v["levels"]
            .as_array()
            .unwrap()
            .iter()
            .map(|l| LevelInfo {
                level: number(&l["level"]),
                downsample: number(&l["downsample"]),
                cols: number(&l["cols"]),
                rows: number(&l["rows"]),
            })
            .collect(),
        target_mpp_bits: v["target_mpp"].as_f64().unwrap().to_bits(),
        target_magnification_bits: v["target_magnification"].as_f64().unwrap().to_bits(),
    }
}

#[test]
fn test_load_valid_metadata() {
    let json = r#"{
            "dimensions": [1000, 2000],
            "tile_size": 512,
            "levels": [
                {"level": 0, "downsample": 8, "cols": 1, "rows": 1},
                {"level": 1, "downsample": 4, "cols": 2, "rows": 4},
                {"level": 2, "downsample": 1, "cols": 4, "rows": 8}
            ],
            "target_mpp": 0.5,
            "target_magnification": 20.0
        }"#;
    let mut metadata = parse_metadata(json);
    metadata.validate().unwrap();
    assert_eq!(metadata.dimensions, (1000, 2000));
    assert_eq!(metadata.num_levels(), 3);
}

#[test]
fn test_validate_accepts_valid_metadata() {
    let mut m = valid_metadata();
    m.validate().unwrap();
    assert_eq!(m.dimensions, (1000, 2000));
    assert_eq!(m.num_levels(), 3);
    assert_eq!(m.tile_size, 512);
    assert_eq!(f64::from_bits(m.target_mpp_bits), 0.5);
    assert_eq!(f64::from_bits(m.target_magnification_bits), 20.0);
}

#[test]
fn test_validate_empty_levels() {
    let mut m = valid_metadata();
    m.levels.clear();
    let err = m.validate().unwrap_err();
    assert!(err.to_string().contains("levels must not be empty"));
}

#[test]
fn test_validate_zero_tile_size() {
    let mut m = valid_metadata();
    m.tile_size = 0;
    let err = m.validate().unwrap_err();
    assert!(err.to_string().contains("tile_size must be positive"));
}

#[test]
fn test_validate_zero_dimensions() {
    let mut m = valid_metadata();
    m.dimensions = (0, 1000);
    let err = m.validate().unwrap_err();
    assert!(err.to_string().contains("dimensions must be positive"));

    let mut m = valid_metadata();
    m.dimensions = (1000, 0);
    let err = m.validate().unwrap_err();
    assert!(err.to_string().contains("dimensions must be positive"));
}

#[test]
fn test_validate_zero_downsample() {
    let mut m = valid_metadata();
    m.levels[1].downsample = 0;
    let err = m.validate().unwrap_err();
    assert!(err.to_string().contains("level 1: downsample must be positive"));
}

#[test]
fn test_validate_zero_cols() {
    let mut m = valid_metadata();
    m.levels[2].cols = 0;
    let err = m.validate().unwrap_err();
    assert!(err.to_string().contains("level 2: cols must be positive"));
}

#[test]
fn test_validate_zero_rows() {
    let mut m = valid_metadata();
    m.levels[0].rows = 0;
    let err = m.validate().unwrap_err();
    assert!(err.to_string().contains("level 0: rows must be positive"));
}

#[test]
fn test_validate_duplicate_levels() {
    let mut m = valid_metadata();
    m.levels[2].level = 1;
    let err = m.validate().unwrap_err();
    assert!(err.to_string().contains("duplicate level number: 1"));
}

#[test]
fn test_validate_sorts_levels() {
    let mut m = SlideMetadata {
        dimensions: (1000, 2000),
        tile_size: 512,
        levels: vec![
            LevelInfo { level: 2, downsample: 1, cols: 4, rows: 8 },
            LevelInfo { level: 0, downsample: 8, cols: 1, rows: 1 },
            LevelInfo { level: 1, downsample: 4, cols: 2, rows: 4 },
        ],
        target_mpp_bits: 0.5f64.to_bits(),
        target_magnification_bits: 20.0f64.to_bits(),
    };
    m.validate().unwrap();
    let level_nums: Vec<u32> = m.levels.iter().map(|l| l.level).collect();
    assert_eq!(level_nums, vec![0, 1, 2]);
}

#[test]
fn test_validate_messages_are_exact() {
    let mut m = valid_metadata();
    m.dimensions = (0, 0);
    m.tile_size = 0;
    match m.validate() {
        Err(TileError::Validation(msg)) => assert_eq!(msg, "dimensions must be positive"),
        other => panic!("unexpected result: {:?}", other),
    }
    let mut m = valid_metadata();
    m.levels[1].rows = 0;
    let err = m.validate().unwrap_err();
    assert_eq!(err.to_string(), "Validation error: level 1: rows must be positive");
}

#[test]
fn test_validate_reports_the_lowest_faulty_level() {
    let mut m = valid_metadata();
    m.levels[2].cols = 0;
    m.levels[0].downsample = 0;
    let err = m.validate().unwrap_err();
    assert!(err.to_string().contains("level 0: downsample must be positive"));
}

#[test]
fn test_validate_sort_is_stable() {
    let mut m = valid_metadata();
    m.levels = vec![
        LevelInfo { level: 3, downsample: 1, cols: 1, rows: 1 },
        LevelInfo { level: 1, downsample: 2, cols: 0, rows: 1 },
        LevelInfo { level: 1, downsample: 2, cols: 1, rows: 0 },
    ];
    let err = m.validate().unwrap_err();
    assert!(err.to_string().contains("level 1: cols must be positive"));
    assert_eq!(m.levels[0], LevelInfo { level: 1, downsample: 2, cols: 0, rows: 1 });
    assert_eq!(m.levels[1], LevelInfo { level: 1, downsample: 2, cols: 1, rows: 0 });
    assert_eq!(m.levels[2], LevelInfo { level: 3, downsample: 1, cols: 1, rows: 1 });
}

#[test]
fn test_validate_early_fault_leaves_the_levels() {
    let mut m = valid_metadata();
    m.levels.reverse();
    m.tile_size = 0;
    assert!(m.validate().is_err());
    assert_eq!(m.levels[0].level, 2);
}

#[test]
fn test_get_level() {
    let m = valid_metadata();
    assert_eq!(m.get_level(1), Some(&LevelInfo { level: 1, downsample: 4, cols: 2, rows: 4 }));
    assert_eq!(m.get_level(3), None);
}
