use std::path::PathBuf;
use tiled::{place_by_captures, Error, World, WorldMap, WorldPattern};

fn world(patterns: Vec<WorldPattern>) -> World {
    World { source: PathBuf::from("maps/test.world"), maps: None, patterns: Some(patterns) }
}

fn grid_pattern(multiplier: i32) -> WorldPattern {
    WorldPattern::new(r"map_(\d+)_(\d+)\.tmx", multiplier, multiplier, 0, 0).unwrap()
}

#[test]
fn pattern_places_map_from_captures() {
    let w = world(vec![grid_pattern(100)]);
    let m = w.match_filename("map_2_3.tmx").unwrap();
    assert_eq!(
        m,
        WorldMap { filename: "map_2_3.tmx".to_string(), x: 200, y: 300, width: None, height: None }
    );
}

#[test]
fn pattern_offsets_are_added() {
    let p = WorldPattern::new(r"map_(\d+)_(\d+)\.tmx", 10, 20, -5, 7).unwrap();
    let m = world(vec![p]).match_filename("map_1_2.tmx").unwrap();
    assert_eq!((m.x, m.y), (5, 47));
}

#[test]
fn capture_product_overflow_is_range_error() {
    let w = world(vec![grid_pattern(100_000)]);
    match w.match_filename("map_30000000_1.tmx") {
        Err(Error::RangeError(s)) => assert_eq!(s, "Capture x * multiplierX causes overflow"),
        other => panic!("unexpected {:?}", other),
    }
    match w.match_filename("map_1_30000000.tmx") {
        Err(Error::RangeError(s)) => assert_eq!(s, "Capture y * multiplierY causes overflow"),
        other => panic!("unexpected {:?}", other),
    }
}

#[test]
fn offset_overflow_is_range_error() {
    let p = WorldPattern::new(r"map_(\d+)_(\d+)\.tmx", 1, 1, i32::MAX, 0).unwrap();
    match world(vec![p]).match_filename("map_1_1.tmx") {
        Err(Error::RangeError(s)) => {
            assert_eq!(s, "Capture x * multiplierX + offsetX causes overflow")
        }
        other => panic!("unexpected {:?}", other),
    }
}

#[test]
fn capture_that_is_not_an_i32_is_an_error() {
    let w = world(vec![grid_pattern(1)]);
    let r = w.match_filename("map_99999999999_1.tmx");
    assert!(matches!(r, Err(Error::CaptureParseError(_))));
}

#[test]
fn first_declared_pattern_wins() {
    let first = WorldPattern::new(r"map_(\d+)_(\d+)\.tmx", 100, 100, 0, 0).unwrap();
    let second = WorldPattern::new(r"(\d+)_(\d+)", 1, 1, 1000, 1000).unwrap();
    let both = world(vec![first.clone(), second]).match_filename("map_2_3.tmx").unwrap();
    let only_first = world(vec![first]).match_filename("map_2_3.tmx").unwrap();
    assert_eq!(both, only_first);
    assert_eq!((both.x, both.y), (200, 300));
}

#[test]
fn pattern_without_both_groups_is_skipped() {
    let one_group = WorldPattern::new(r"map_(\d+)", 1, 1, 0, 0).unwrap();
    let w = world(vec![one_group, grid_pattern(10)]);
    let m = w.match_filename("map_4_5.tmx").unwrap();
    assert_eq!((m.x, m.y), (40, 50));
}

#[test]
fn no_matching_pattern_names_the_filename() {
    let w = world(vec![grid_pattern(100)]);
    let e = w.match_filename("bogus").unwrap_err();
    assert!(matches!(&e, Error::NoMatchFound { filename } if filename == "bogus"));
    assert_eq!(e.message(), "No match found for filename: 'bogus'");
    let empty = World { source: PathBuf::from("w.world"), maps: None, patterns: None };
    assert!(matches!(empty.match_filename("map_1_1.tmx"), Err(Error::NoMatchFound { .. })));
}

#[test]
fn batch_matching_keeps_order_and_failures() {
    let w = world(vec![grid_pattern(100)]);
    let names = vec!["map_1_1.tmx", "bogus", "map_2_2.tmx"];
    let r = w.match_filenames(&names);
    assert_eq!(r.len(), 3);
    assert_eq!(r[0].as_ref().unwrap().x, 100);
    assert!(matches!(r[1], Err(Error::NoMatchFound { .. })));
    assert_eq!(r[2].as_ref().unwrap().y, 200);
}

#[test]
fn placement_from_capture_texts() {
    let p = grid_pattern(100);
    let m = place_by_captures(&p, "m.tmx", "-2", "+3").unwrap();
    assert_eq!((m.x, m.y, m.width, m.height), (-200, 300, None, None));
    assert!(matches!(place_by_captures(&p, "m.tmx", "x", "1"), Err(Error::CaptureParseError(_))));
}

#[test]
fn patterns_compare_by_text_and_numbers() {
    assert!(grid_pattern(100) == grid_pattern(100));
    assert!(grid_pattern(100) != grid_pattern(10));
    let other = WorldPattern::new(r"m_(\d+)_(\d+)", 100, 100, 0, 0).unwrap();
    assert!(grid_pattern(100) != other);
}

#[test]
fn separately_compiled_patterns_with_same_text_are_equal() {
    let p = grid_pattern(100);
    let q = grid_pattern(100);
    assert!(p == q);
    let mut r = p.clone();
    r.offset_x = 1;
    assert!(p != r);
    let a = WorldPattern::new("a+", 1, 1, 0, 0).unwrap();
    let b = WorldPattern::new("aa*", 1, 1, 0, 0).unwrap();
    assert!(a != b);
    assert_eq!(a.regexp.as_str(), "a+");
}

#[test]
fn invalid_regex_is_rejected() {
    assert!(WorldPattern::new("map_(", 1, 1, 0, 0).is_err());
}

#[test]
fn worlds_compare_by_fields() {
    let a = world(vec![grid_pattern(100)]);
    let b = world(vec![grid_pattern(100)]);
    assert!(a == b);
    let c = world(vec![grid_pattern(10)]);
    assert!(a != c);
}

#[test]
fn present_capture_that_is_not_an_integer_stops_matching() {
    let first = WorldPattern::new(r"^m_([a-z]+)(\d+)?_", 1, 1, 0, 0).unwrap();
    let second = WorldPattern::new(r"(\d+)_(\d+)", 1, 1, 0, 0).unwrap();
    let w = world(vec![first.clone(), second.clone()]);
    assert!(matches!(w.match_filename("m_x_1_2.tmx"), Err(Error::CaptureParseError(_))));
    assert!(matches!(world(vec![first]).match_filename("m_x_1_2.tmx"), Err(Error::CaptureParseError(_))));
    let skipped = WorldPattern::new(r"^m(\d+)_(q)?", 1, 1, 0, 0).unwrap();
    let m = world(vec![skipped, second]).match_filename("m1_2_3.tmx").unwrap();
    assert_eq!((m.x, m.y), (1, 2));
}
