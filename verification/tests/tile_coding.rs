use std::collections::hash_map::DefaultHasher;
use std::hash::{Hash, Hasher};

use mi_thermald::ai::tile_coding::{TileCoding, TABLE_SIZE};

#[test]
fn test_tile_coding_basic() {
    let tc = TileCoding::new(8, 4, 25);
    let state = vec![500_000; 25];
    let tiles = tc.get_tiles(&state, 3);

    assert_eq!(tiles.len(), 8);

    let unique_tiles: std::collections::HashSet<_> = tiles.iter().collect();
    assert!(unique_tiles.len() > 1, "Tilings should produce different tiles");
}

#[test]
fn test_tile_coding_bounds() {
    let tc = TileCoding::new(8, 4, 25);

    let state_min = vec![0; 25];
    let state_max = vec![1_000_000; 25];

    let tiles_min = tc.get_tiles(&state_min, 0);
    let tiles_max = tc.get_tiles(&state_max, 0);

    assert_eq!(tiles_min.len(), 8);
    assert_eq!(tiles_max.len(), 8);

    assert_ne!(tiles_min, tiles_max);
}

#[test]
fn test_action_discrimination() {
    let tc = TileCoding::new(8, 4, 25);
    let state = vec![500_000; 25];

    let tiles_action0 = tc.get_tiles(&state, 0);
    let tiles_action1 = tc.get_tiles(&state, 1);

    assert_ne!(tiles_action0, tiles_action1);
}

#[test]
fn coding_keeps_its_shape() {
    let tc = TileCoding::new(8, 4, 34);
    assert_eq!(tc.num_tilings(), 8);
    assert_eq!(tc.table_size(), 262_144);
    assert_eq!(TABLE_SIZE, 1 << 18);
    assert_eq!(TileCoding::default(), TileCoding::new(8, 4, 25));
}

#[test]
fn positions_follow_the_standard_hasher() {
    let tc = TileCoding::new(8, 4, 3);
    let state: Vec<i64> = vec![300_000, 0, 999_999];
    let tiles = tc.get_tiles(&state, 7);
    for tiling in 0usize..8 {
        let offset = tiling as f32 / 8.0;
        let mut hasher = DefaultHasher::new();
        tiling.hash(&mut hasher);
        for (dim, &v) in state.iter().enumerate() {
            let shifted = (v as f32 / 1_000_000.0 + offset).clamp(0.0, 1.0);
            let idx = ((shifted * 4.0) as usize).min(3);
            dim.hash(&mut hasher);
            idx.hash(&mut hasher);
        }
        3usize.hash(&mut hasher);
        7usize.hash(&mut hasher);
        assert_eq!(tiles[tiling], (hasher.finish() as usize) % 262_144);
    }
}

#[test]
fn states_in_one_tile_share_positions() {
    let tc = TileCoding::new(8, 4, 2);
    let a = tc.get_tiles(&vec![10_000, 510_000], 2);
    let b = tc.get_tiles(&vec![20_000, 520_000], 2);
    assert_eq!(a, b);
    for t in &a {
        assert!(*t < tc.table_size());
    }
}

#[test]
fn values_outside_the_range_fall_into_the_end_tiles() {
    let tc = TileCoding::new(8, 4, 1);
    assert_eq!(tc.get_tiles(&vec![-5_000_000], 0), tc.get_tiles(&vec![-1_000_000], 0));
    assert_eq!(tc.get_tiles(&vec![7_000_000], 0), tc.get_tiles(&vec![1_000_000], 0));
}
