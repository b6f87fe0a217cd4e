use terrain_stream::colormap::terrain_ramp;
use terrain_stream::tile::ElevationTile;
use terrain_stream::window::Terrain;
use terrain_stream::{TILE_SIDE, UNIT, WATER_DROP};

fn square_tile(value: i32) -> ElevationTile {
    ElevationTile { data: vec![vec![value; TILE_SIDE]; TILE_SIDE] }
}

fn window_over(tile: ElevationTile) -> Terrain {
    Terrain::new(tile, 54, 3, 5, 100_000, 241)
}

#[test]
fn indices_cover_two_triangles_per_quad() {
    let mut t = window_over(square_tile(0));
    let indices = t.create_indices(3, 3);
    assert_eq!(indices.len(), 24);
    assert_eq!(&indices[0..6], &[0, 1, 4, 4, 3, 0]);
    assert_eq!(&indices[6..12], &[1, 2, 5, 5, 4, 1]);
    assert_eq!(&indices[12..18], &[3, 4, 7, 7, 6, 3]);
    assert_eq!(&indices[18..24], &[4, 5, 8, 8, 7, 4]);
}

#[test]
fn indices_have_the_exact_length_and_stay_in_range() {
    let mut t = window_over(square_tile(0));
    for (r, c) in [(1, 1), (2, 5), (41, 41), (7, 3)] {
        let indices = t.create_indices(r, c);
        assert_eq!(indices.len() as u64, 6 * (r as u64 - 1) * (c as u64 - 1));
        for &idx in &indices {
            assert!(idx < r * c);
        }
    }
}

#[test]
fn level_of_detail_five_gives_increment_six_and_forty_one_rows() {
    let mut t = window_over(square_tile(500_000));
    let (data, vertices_per_row) = t.create_terrain_data().expect("interior build");
    assert_eq!(vertices_per_row, 41);
    assert_eq!(data.len(), 41 * 41);
    // the stride is 6: the second vertex of the first row sits at z = 6
    assert_eq!(data[0].pos_x, 0);
    assert_eq!(data[0].pos_z, 0);
    assert_eq!(data[1].pos_z, 6);
    assert_eq!(data[41].pos_x, 6);
    assert_eq!(data[41].pos_z, 0);
    assert_eq!(data[41 * 41 - 1].pos_x, 240);
    assert_eq!(data[41 * 41 - 1].pos_z, 240);
}

#[test]
fn submerged_samples_are_flattened_to_just_below_the_water_level() {
    let mut tile = square_tile(500_000);
    // the sample the chunk's first vertex reads: moves (1800, 1800) plus
    // offsets (0, 0) at local (0, 0)
    tile.data[1800][1800] = 0;
    tile.data[1800][1806] = 99_999;
    tile.data[1806][1800] = 100_000;
    let mut t = window_over(tile);
    let (data, vpr) = t.create_terrain_data().expect("interior build");
    assert_eq!(vpr, 41);
    assert_eq!(data[0].pos_y, 100_000 - WATER_DROP);
    assert_eq!(data[1].pos_y, 100_000 - WATER_DROP);
    // a sample exactly at the water level is left alone
    assert_eq!(data[41].pos_y, 100_000);
    for v in &data {
        assert!(v.pos_y == 100_000 - WATER_DROP || v.pos_y >= 100_000);
        assert!(v.pos_y <= UNIT);
    }
}

#[test]
fn vertex_colors_come_from_the_water_shifted_ramp() {
    let mut tile = square_tile(500_000);
    tile.data[1800][1800] = 0;
    let mut t = window_over(tile);
    let (data, _) = t.create_terrain_data().expect("interior build");
    let shifted = terrain_ramp().water_shift(100_000);
    assert_eq!(data[0].color, shifted.interpolate(100_000 - WATER_DROP));
    assert_eq!(data[1].color, shifted.interpolate(500_000));
}

#[test]
fn a_collection_shares_one_window_across_chunks() {
    let mut t = window_over(square_tile(777_777));
    let translations: Vec<(i64, i64)> = vec![(0, 0), (240, 0), (0, 240), (240, 240)];
    let (chunks, vpr) = t
        .create_collection_of_terrain_data(2, 2, &translations)
        .expect("interior build");
    assert_eq!(vpr, 41);
    assert_eq!(chunks.len(), 4);
    for chunk in &chunks {
        assert_eq!(chunk.len(), 41 * 41);
        for v in chunk {
            assert_eq!(v.pos_y, 777_777);
        }
    }
}

#[test]
fn a_collection_crossing_a_boundary_asks_for_the_tile_once() {
    let mut t = window_over(square_tile(111));
    // pan deep enough forward that the far chunk crosses the edge
    t.moves_z = 3500;
    let translations: Vec<(i64, i64)> = vec![(0, 0), (0, 240)];
    // the first chunk reaches the far band: the north tile is needed
    let err = t.create_collection_of_terrain_data(1, 2, &translations);
    assert!(err.is_err());
    t.provide_secondary(terrain_stream::window::Direction::North, square_tile(222));
    let (chunks, _) = t
        .create_collection_of_terrain_data(1, 2, &translations)
        .expect("build after providing the tile");
    assert_eq!(chunks.len(), 2);
}

#[test]
fn a_build_that_crosses_commits_once_and_recenters() {
    let mut t = window_over(square_tile(111));
    t.provide_secondary(terrain_stream::window::Direction::North, square_tile(222_222));
    // pan so the very first sample lies beyond the forward commit edge
    t.moves_z = 5001;
    let (data, _) = t.create_terrain_data().expect("crossing build");
    assert_eq!(t.long, 4);
    assert_eq!(t.moves_z, 5001 - 3600);
    assert!(t.mapdata2.is_none());
    // every vertex of the transition frame resolved against the new tile
    for v in &data {
        assert_eq!(v.pos_y, 222_222);
    }
}
