use terrain_stream::tile::{normalize_grid, resolve_tile_load, ElevationTile};
use terrain_stream::{TILE_SIDE, UNIT};

fn square_tile(value: i32) -> ElevationTile {
    ElevationTile { data: vec![vec![value; TILE_SIDE]; TILE_SIDE] }
}

#[test]
fn normalize_maps_min_to_zero_and_max_to_unit() {
    let raw = vec![vec![10, 20], vec![30, 40]];
    let n = normalize_grid(&raw);
    assert_eq!(n, vec![vec![0, 333_333], vec![666_666, 1_000_000]]);
}

#[test]
fn normalize_attains_both_ends_of_the_range() {
    let raw = vec![vec![-5, 3, 9], vec![12, -5, 0], vec![7, 7, 12]];
    let n = normalize_grid(&raw);
    let mut lo = i32::MAX;
    let mut hi = i32::MIN;
    for row in &n {
        for &v in row {
            assert!(0 <= v && v <= UNIT);
            lo = lo.min(v);
            hi = hi.max(v);
        }
    }
    assert_eq!(lo, 0);
    assert_eq!(hi, UNIT);
}

#[test]
fn normalize_of_a_uniform_grid_is_all_zero() {
    let raw = vec![vec![7; 5]; 4];
    let n = normalize_grid(&raw);
    assert_eq!(n, vec![vec![0; 5]; 4]);
}

#[test]
fn normalize_handles_negative_elevations() {
    let raw = vec![vec![-100, -50], vec![0, -100]];
    let n = normalize_grid(&raw);
    assert_eq!(n, vec![vec![0, 500_000], vec![1_000_000, 0]]);
}

#[test]
fn normalize_is_deterministic() {
    let raw = vec![vec![3, 1, 4, 1], vec![5, 9, 2, 6], vec![5, 3, 5, 8]];
    let again = raw.clone();
    assert_eq!(normalize_grid(&raw), normalize_grid(&again));
}

#[test]
fn a_missing_tile_falls_back_to_the_designated_empty_tile() {
    // the loader's rule: with no backing file the designated empty tile
    // is used, so the result equals loading that tile directly
    let fallback = square_tile(0);
    let direct = square_tile(0);
    let chosen = resolve_tile_load(None, fallback);
    assert_eq!(chosen.data, direct.data);
}

#[test]
fn a_loaded_tile_is_used_as_it_is() {
    let loaded = square_tile(123);
    let fallback = square_tile(0);
    let chosen = resolve_tile_load(Some(loaded), fallback);
    assert_eq!(chosen.data[0][0], 123);
}
