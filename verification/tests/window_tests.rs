use terrain_stream::tile::ElevationTile;
use terrain_stream::window::{Direction, Phase, Terrain};
use terrain_stream::TILE_SIDE;

fn square_tile(value: i32) -> ElevationTile {
    ElevationTile { data: vec![vec![value; TILE_SIDE]; TILE_SIDE] }
}

fn window(primary_value: i32) -> Terrain {
    Terrain::new(square_tile(primary_value), 54, 3, 5, 100_000, 241)
}

#[test]
fn a_fresh_window_queues_both_axis_neighbors() {
    let t = window(0);
    assert_eq!(t.lat, 54);
    assert_eq!(t.long, 3);
    assert_eq!(t.moves_x, 1800);
    assert_eq!(t.moves_z, 1800);
    assert_eq!(t.pending.len(), 2);
    assert_eq!(t.pending[0].long, 4);
    assert_eq!(t.pending[0].dir, Direction::North);
    assert_eq!(t.pending[1].long, 2);
    assert_eq!(t.pending[1].dir, Direction::South);
    assert!(t.mapdata2.is_none());
    assert_eq!(t.phase, Phase::Initial);
}

#[test]
fn interior_reads_come_from_the_primary_tile() {
    let mut t = window(111);
    assert_eq!(t.resolve_z(0, 201), Ok(111));
    assert_eq!(t.resolve_z(3599, 3399), Ok(111));
    assert_eq!(t.long, 3);
}

#[test]
fn the_near_band_blocks_until_the_south_tile_arrives() {
    let mut t = window(111);
    assert_eq!(t.resolve_z(10, 0), Err(Direction::South));
    assert_eq!(t.resolve_z(10, 200), Err(Direction::South));
    t.provide_secondary(Direction::South, square_tile(222));
    // the band still reads the primary tile; the receive only gates it
    assert_eq!(t.resolve_z(10, 0), Ok(111));
    assert_eq!(t.resolve_z(10, 200), Ok(111));
}

#[test]
fn the_far_band_blocks_until_the_north_tile_arrives() {
    let mut t = window(111);
    assert_eq!(t.resolve_z(10, 3400), Err(Direction::North));
    assert_eq!(t.resolve_z(10, 3599), Err(Direction::North));
    t.provide_secondary(Direction::North, square_tile(222));
    assert_eq!(t.resolve_z(10, 3400), Ok(111));
    assert_eq!(t.resolve_z(10, 3599), Ok(111));
}

#[test]
fn reads_behind_the_tile_use_the_south_secondary() {
    let mut t = window(111);
    assert_eq!(t.resolve_z(10, -1), Err(Direction::South));
    t.provide_secondary(Direction::South, square_tile(222));
    assert_eq!(t.resolve_z(10, -1), Ok(222));
    assert_eq!(t.back_z, 3600);
    assert_eq!(t.resolve_z(10, -3600), Ok(222));
    assert_eq!(t.long, 3);
}

#[test]
fn reads_ahead_of_the_tile_use_the_north_secondary() {
    let mut t = window(111);
    assert_eq!(t.resolve_z(10, 3600), Err(Direction::North));
    t.provide_secondary(Direction::North, square_tile(222));
    assert_eq!(t.resolve_z(10, 3600), Ok(222));
    assert_eq!(t.back_z, -3600);
    assert_eq!(t.resolve_z(10, 5000), Ok(222));
    assert_eq!(t.long, 3);
}

#[test]
fn a_mismatched_secondary_is_asked_to_be_replaced() {
    let mut t = window(111);
    t.provide_secondary(Direction::North, square_tile(222));
    assert_eq!(t.resolve_z(10, -1), Err(Direction::South));
    t.provide_secondary(Direction::South, square_tile(233));
    assert_eq!(t.resolve_z(10, -1), Ok(233));
}

#[test]
fn stepping_over_the_forward_edge_commits_exactly_one_crossing() {
    let mut t = window(111);
    t.provide_secondary(Direction::North, square_tile(222));
    // moves just before the commit threshold: still a secondary read
    t.moves_z = 3599;
    assert_eq!(t.resolve_z(100, 1400 + 3599), Ok(222));
    assert_eq!(t.long, 3);
    assert_eq!(t.moves_z, 3599);
    // two steps later the same sample crosses: one commit, the tile
    // index moves by one and the pan re-centers by one span, and the
    // sample still resolves without any panic
    t.moves_z = 3601;
    assert_eq!(t.resolve_z(100, 1400 + 3601), Ok(222));
    assert_eq!(t.long, 4);
    assert_eq!(t.moves_z, 1);
    assert!(t.mapdata2.is_none());
    assert_eq!(t.phase, Phase::Prefetched);
    // the crossing queued prefetch for the new tile's neighbors
    assert_eq!(t.pending.len(), 4);
    assert_eq!(t.pending[2].long, 5);
    assert_eq!(t.pending[2].dir, Direction::North);
    assert_eq!(t.pending[3].long, 3);
    assert_eq!(t.pending[3].dir, Direction::South);
}

#[test]
fn crossing_forward_without_the_tile_asks_for_it_first() {
    let mut t = window(111);
    assert_eq!(t.resolve_z(100, 5001), Err(Direction::North));
    assert_eq!(t.long, 3);
    assert_eq!(t.moves_z, 1800);
}

#[test]
fn crossing_backward_commits_and_asks_for_the_next_tile() {
    let mut t = window(111);
    t.provide_secondary(Direction::South, square_tile(222));
    assert_eq!(t.resolve_z(100, -3601), Err(Direction::South));
    assert_eq!(t.long, 2);
    assert_eq!(t.moves_z, 1800 + 3600);
    assert!(t.mapdata2.is_none());
    // once the new south tile arrives, the same sample resolves
    t.provide_secondary(Direction::South, square_tile(233));
    assert_eq!(t.resolve_z(100, -1), Ok(233));
}

#[test]
fn plane_move_pans_and_reports_the_dirty_flag() {
    let mut t = window(0);
    assert!(t.plane_move('s'));
    assert_eq!(t.moves_x, 1810);
    assert!(t.plane_move('n'));
    assert_eq!(t.moves_x, 1800);
    assert!(t.plane_move('w'));
    assert_eq!(t.moves_z, 1810);
    assert!(t.plane_move('e'));
    assert_eq!(t.moves_z, 1800);
    assert!(!t.plane_move('q'));
    assert_eq!(t.moves_x, 1800);
    assert_eq!(t.moves_z, 1800);
}

#[test]
fn clear_requests_empties_the_queue() {
    let mut t = window(0);
    assert_eq!(t.pending.len(), 2);
    t.clear_requests();
    assert_eq!(t.pending.len(), 0);
}
