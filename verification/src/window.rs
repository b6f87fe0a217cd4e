//! The terrain window: the primary tile under the camera, one prefetched
//! secondary tile, and the boundary-crossing state machine that turns a
//! virtual coordinate into a read from one of the two tiles, committing
//! the secondary tile to primary when the window crosses a tile edge.
//!
//! Only the long axis (here called z) re-tiles; the lat axis must stay
//! inside the primary tile.

use vstd::prelude::*;
use crate::{UNIT, TILE_SIDE};
use crate::tile::ElevationTile;

verus! {

/// Side of a tile, as a signed coordinate span.
pub const TILE_SPAN: i64 = 3600;

/// Width of the near and far boundary bands.
pub const BAND: i64 = 200;

/// How far past the forward tile edge reads stay on the secondary tile
/// before the window commits the crossing.
pub const AHEAD_SPAN: i64 = 1400;

/// Largest magnitude the pan state and chunk offsets may reach.
pub const MOVES_BOUND: i64 = 1_000_000_000_000;

/// Largest magnitude of a tile index.
pub const COORD_BOUND: i32 = 1_000_000;

/// The two long-axis neighbors a secondary tile can come from.
#[derive(Clone, Copy, Debug, PartialEq, Eq, Structural)]
pub enum Direction {
    /// The neighbor at `long + 1`.
    North,
    /// The neighbor at `long - 1`.
    South,
}

/// Lifecycle of the primary tile's occupancy.
#[derive(Clone, Copy, Debug, PartialEq, Eq, Structural)]
pub enum Phase {
    /// The starting tile; its neighbors were requested at construction.
    Initial,
    /// Just crossed a tile edge; neighbor prefetch not yet issued.
    Crossed,
    /// Prefetch for both long-axis neighbors has been issued.
    Prefetched,
}

/// A tile the window wants loaded; the caller spawns the load and hands
/// the finished tile back through `provide_secondary`.
#[derive(Clone, Copy, Debug, PartialEq, Eq, Structural)]
pub struct FetchRequest {
    pub lat: i32,
    pub long: i32,
    pub dir: Direction,
}

/// The prefetched neighbor tile and which neighbor it is.
pub struct Secondary {
    pub dir: Direction,
    pub tile: ElevationTile,
}

/// The moving window over the tile mosaic.
pub struct Terrain {
    /// Per-chunk sub-window origin.
    pub offset_x: i64,
    pub offset_z: i64,
    /// Camera-driven pan, shared across chunks.
    pub moves_x: i64,
    pub moves_z: i64,
    /// Coordinate correction applied when reading the secondary tile.
    pub back_z: i64,
    pub level_of_detail: u32,
    /// Fixed-point threshold in `(0, UNIT)`.
    pub water_level: i32,
    /// The primary tile.
    pub mapdata: ElevationTile,
    /// The secondary tile, if one has been received since the last reset.
    pub mapdata2: Option<Secondary>,
    pub phase: Phase,
    pub lat: i32,
    pub long: i32,
    pub chunksize: u32,
    /// Loads the window wants issued; drained by the caller.
    pub pending: Vec<FetchRequest>,
}

impl Terrain {
    pub open spec fn wf(&self) -> bool {
        &&& self.mapdata.wf()
        &&& match self.mapdata2 {
            Some(s) => s.tile.wf(),
            None => true,
        }
        &&& 0 < self.water_level < UNIT
        &&& 2 <= self.chunksize <= TILE_SIDE
        &&& self.level_of_detail <= 100
        &&& -MOVES_BOUND <= self.moves_x <= MOVES_BOUND
        &&& -MOVES_BOUND <= self.moves_z <= MOVES_BOUND
        &&& -MOVES_BOUND <= self.offset_x <= MOVES_BOUND
        &&& -MOVES_BOUND <= self.offset_z <= MOVES_BOUND
        &&& self.back_z == -TILE_SPAN || self.back_z == 0 || self.back_z == TILE_SPAN
        &&& -COORD_BOUND <= self.lat <= COORD_BOUND
        &&& -COORD_BOUND <= self.long <= COORD_BOUND
    }

    /// Headroom for one boundary crossing, which shifts `moves_z` by one
    /// tile span and `long` by one.
    pub open spec fn step_slack(&self) -> bool {
        &&& -MOVES_BOUND + TILE_SPAN <= self.moves_z <= MOVES_BOUND - TILE_SPAN
        &&& -COORD_BOUND + 1 <= self.long <= COORD_BOUND - 1
    }

    /// The fields no sample resolution ever touches.
    pub open spec fn same_config(a: &Terrain, b: &Terrain) -> bool {
        &&& b.offset_x == a.offset_x
        &&& b.offset_z == a.offset_z
        &&& b.moves_x == a.moves_x
        &&& b.level_of_detail == a.level_of_detail
        &&& b.water_level == a.water_level
        &&& b.chunksize == a.chunksize
        &&& b.lat == a.lat
    }

    /// The fields left alone when no crossing is committed.
    pub open spec fn no_commit_frame(a: &Terrain, b: &Terrain) -> bool {
        &&& Self::same_config(a, b)
        &&& b.moves_z == a.moves_z
        &&& b.long == a.long
        &&& b.mapdata == a.mapdata
        &&& b.mapdata2 == a.mapdata2
    }

    /// A secondary tile for `d` has been received and is still held.
    pub open spec fn has_secondary(&self, d: Direction) -> bool {
        self.mapdata2 is Some && self.mapdata2->Some_0.dir == d
    }

    pub open spec fn primary_at(&self, x: int, z: int) -> int {
        self.mapdata.grid()[x][z]
    }

    pub open spec fn secondary_at(&self, x: int, z: int) -> int {
        self.mapdata2->Some_0.tile.grid()[x][z]
    }

    /// The prefetch requests issued on the first interior sample after a
    /// crossing: the two long-axis neighbors of the current tile.
    pub open spec fn axis_requests(&self) -> Seq<FetchRequest> {
        seq![
            FetchRequest { lat: self.lat, long: (self.long + 1) as i32, dir: Direction::North },
            FetchRequest { lat: self.lat, long: (self.long - 1) as i32, dir: Direction::South },
        ]
    }

    /// A fresh window over `primary` at tile `(lat, long)`, panned to the
    /// middle of the tile, with loads for both long-axis neighbors
    /// already queued.
    pub fn new(
        primary: ElevationTile,
        lat: i32,
        long: i32,
        level_of_detail: u32,
        water_level: i32,
        chunksize: u32,
    ) -> (t: Terrain)
        requires
            primary.wf(),
            0 < water_level < UNIT,
            2 <= chunksize <= TILE_SIDE,
            level_of_detail <= 100,
            -COORD_BOUND + 1 <= lat <= COORD_BOUND - 1,
            -COORD_BOUND + 1 <= long <= COORD_BOUND - 1,
        ensures
            t.wf(),
            t.offset_x == 0 && t.offset_z == 0,
            t.moves_x == 1800 && t.moves_z == 1800,
            t.back_z == 0,
            t.level_of_detail == level_of_detail,
            t.water_level == water_level,
            t.mapdata == primary,
            t.mapdata2 is None,
            t.phase is Initial,
            t.lat == lat && t.long == long,
            t.chunksize == chunksize,
            t.pending@ == t.axis_requests(),
    {
        let mut pending: Vec<FetchRequest> = Vec::new();
        pending.push(FetchRequest { lat, long: long + 1, dir: Direction::North });
        pending.push(FetchRequest { lat, long: long - 1, dir: Direction::South });
        let t = Terrain {
            offset_x: 0,
            offset_z: 0,
            moves_x: 1800,
            moves_z: 1800,
            back_z: 0,
            level_of_detail,
            water_level,
            mapdata: primary,
            mapdata2: None,
            phase: Phase::Initial,
            lat,
            long,
            chunksize,
            pending,
        };
        proof {
            assert(t.pending@ =~= t.axis_requests());
        }
        t
    }

    /// Hand a loaded neighbor tile to the window. This is the resolution
    /// of every `Err(direction)` a sample resolution returns.
    pub fn provide_secondary(&mut self, dir: Direction, tile: ElevationTile)
        requires
            old(self).wf(),
            tile.wf(),
        ensures
            final(self).wf(),
            Self::same_config(old(self), final(self)),
            final(self).moves_z == old(self).moves_z,
            final(self).long == old(self).long,
            final(self).mapdata == old(self).mapdata,
            final(self).back_z == old(self).back_z,
            final(self).phase == old(self).phase,
            final(self).pending == old(self).pending,
            final(self).mapdata2 is Some,
            final(self).mapdata2->Some_0.dir == dir,
            final(self).mapdata2->Some_0.tile == tile,
    {
        self.mapdata2 = Some(Secondary { dir, tile });
    }

    /// Discard the queued fetch requests, after the caller has spawned
    /// the loads they name.
    pub fn clear_requests(&mut self)
        requires
            old(self).wf(),
        ensures
            final(self).wf(),
            Self::no_commit_frame(old(self), final(self)),
            final(self).back_z == old(self).back_z,
            final(self).phase == old(self).phase,
            final(self).pending@.len() == 0,
    {
        self.pending = Vec::new();
    }

    /// Apply one discrete pan command; returns whether the terrain moved
    /// (the dirty flag for the caller's buffers).
    pub fn plane_move(&mut self, m: char) -> (changed: bool)
        requires
            old(self).wf(),
            -MOVES_BOUND + 10 <= old(self).moves_x <= MOVES_BOUND - 10,
            -MOVES_BOUND + 10 <= old(self).moves_z <= MOVES_BOUND - 10,
        ensures
            final(self).wf(),
            final(self).moves_x == old(self).moves_x + (if m == 's' { 10int } else if m == 'n' { -10int } else { 0int }),
            final(self).moves_z == old(self).moves_z + (if m == 'w' { 10int } else if m == 'e' { -10int } else { 0int }),
            changed == (m == 's' || m == 'n' || m == 'w' || m == 'e'),
            final(self).offset_x == old(self).offset_x,
            final(self).offset_z == old(self).offset_z,
            final(self).long == old(self).long,
            final(self).lat == old(self).lat,
            final(self).mapdata == old(self).mapdata,
            final(self).mapdata2 == old(self).mapdata2,
            final(self).phase == old(self).phase,
            final(self).back_z == old(self).back_z,
            final(self).pending == old(self).pending,
            final(self).water_level == old(self).water_level,
            final(self).chunksize == old(self).chunksize,
            final(self).level_of_detail == old(self).level_of_detail,
    {
        if m == 's' {
            self.moves_x = self.moves_x + 10;
            true
        } else if m == 'n' {
            self.moves_x = self.moves_x - 10;
            true
        } else if m == 'w' {
            self.moves_z = self.moves_z + 10;
            true
        } else if m == 'e' {
            self.moves_z = self.moves_z - 10;
            true
        } else {
            false
        }
    }

    /// Commit the secondary tile as the new primary across the boundary
    /// named by `dir`, re-centering the pan state on the new tile.
    /// Refused (returning false, changing nothing) when no secondary
    /// tile for that direction is held.
    fn commit_crossing(&mut self, dir: Direction) -> (ok: bool)
        requires
            old(self).wf(),
            old(self).step_slack(),
        ensures
            final(self).wf(),
            ok == old(self).has_secondary(dir),
            !ok ==> *final(self) == *old(self),
            ok ==> Self::same_config(old(self), final(self)),
            ok ==> final(self).mapdata == old(self).mapdata2->Some_0.tile,
            ok ==> final(self).mapdata2 is None,
            ok ==> final(self).phase is Crossed,
            ok ==> final(self).back_z == 0,
            ok ==> final(self).pending == old(self).pending,
            ok && dir is North ==> final(self).long == old(self).long + 1 && final(self).moves_z
                == old(self).moves_z - TILE_SPAN,
            ok && dir is South ==> final(self).long == old(self).long - 1 && final(self).moves_z
                == old(self).moves_z + TILE_SPAN,
    {
        let matches_dir = match &self.mapdata2 {
            Some(s) => s.dir == dir,
            None => false,
        };
        if !matches_dir {
            return false;
        }
        let sec = self.mapdata2.take();
        match sec {
            Some(s) => {
                self.mapdata = s.tile;
            },
            None => {
                return false;
            },
        }
        self.mapdata2 = None;
        self.phase = Phase::Crossed;
        self.back_z = 0;
        if dir == Direction::North {
            self.long = self.long + 1;
            self.moves_z = self.moves_z - TILE_SPAN;
        } else {
            self.long = self.long - 1;
            self.moves_z = self.moves_z + TILE_SPAN;
        }
        true
    }

    /// Resolve a sample whose z coordinate already lies inside the
    /// window's reach: in the primary tile or one tile span around it.
    fn resolve_in_window(&mut self, vx: usize, v: i64) -> (r: Result<i32, Direction>)
        requires
            old(self).wf(),
            vx < TILE_SIDE,
            -TILE_SPAN <= v && v <= TILE_SPAN + AHEAD_SPAN,
        ensures
            final(self).wf(),
            Self::no_commit_frame(old(self), final(self)),
            r is Ok ==> 0 <= r->Ok_0 <= UNIT,
            // near band: needs a secondary tile received, then reads primary
            0 <= v <= BAND && old(self).mapdata2 is None ==> r == Err::<i32, Direction>(
                Direction::South,
            ) && *final(self) == *old(self),
            0 <= v <= BAND && old(self).mapdata2 is Some ==> r is Ok && r->Ok_0 as int
                == old(self).primary_at(vx as int, v as int) && *final(self) == *old(self),
            // interior: reads primary; first interior sample after a
            // crossing queues the prefetch of both axis neighbors
            BAND < v < TILE_SPAN - BAND ==> r is Ok && r->Ok_0 as int == old(self).primary_at(
                vx as int,
                v as int,
            ) && final(self).back_z == old(self).back_z,
            BAND < v < TILE_SPAN - BAND && old(self).phase is Crossed ==> final(self).phase
                is Prefetched && final(self).pending@ == old(self).pending@
                + old(self).axis_requests(),
            BAND < v < TILE_SPAN - BAND && !(old(self).phase is Crossed) ==> *final(self) == *old(
                self,
            ),
            // far band: mirror of the near band
            TILE_SPAN - BAND <= v < TILE_SPAN && old(self).mapdata2 is None ==> r == Err::<
                i32,
                Direction,
            >(Direction::North) && *final(self) == *old(self),
            TILE_SPAN - BAND <= v < TILE_SPAN && old(self).mapdata2 is Some ==> r is Ok
                && r->Ok_0 as int == old(self).primary_at(vx as int, v as int) && *final(self)
                == *old(self),
            // behind the tile: reads the south secondary one span up
            -TILE_SPAN <= v < 0 && old(self).has_secondary(Direction::South) ==> r is Ok
                && r->Ok_0 as int == old(self).secondary_at(vx as int, v + TILE_SPAN)
                && final(self).back_z == TILE_SPAN && final(self).phase == old(self).phase
                && final(self).pending == old(self).pending,
            -TILE_SPAN <= v < 0 && !old(self).has_secondary(Direction::South) ==> r == Err::<
                i32,
                Direction,
            >(Direction::South) && *final(self) == *old(self),
            // ahead of the tile: reads the north secondary one span down
            TILE_SPAN <= v <= TILE_SPAN + AHEAD_SPAN && old(self).has_secondary(Direction::North)
                ==> r is Ok && r->Ok_0 as int == old(self).secondary_at(vx as int, v - TILE_SPAN)
                && final(self).back_z == -TILE_SPAN && final(self).phase == old(self).phase
                && final(self).pending == old(self).pending,
            TILE_SPAN <= v <= TILE_SPAN + AHEAD_SPAN && !old(self).has_secondary(Direction::North)
                ==> r == Err::<i32, Direction>(Direction::North) && *final(self) == *old(self),
    {
        if 0 <= v && v <= BAND {
            if self.mapdata2.is_none() {
                return Err(Direction::South);
            }
            Ok(self.mapdata.at(vx, v as usize))
        } else if BAND < v && v < TILE_SPAN - BAND {
            let e = self.mapdata.at(vx, v as usize);
            let is_crossed = match self.phase {
                Phase::Crossed => true,
                _ => false,
            };
            if is_crossed {
                self.pending.push(
                    FetchRequest { lat: self.lat, long: self.long + 1, dir: Direction::North },
                );
                self.pending.push(
                    FetchRequest { lat: self.lat, long: self.long - 1, dir: Direction::South },
                );
                self.phase = Phase::Prefetched;
                proof {
                    assert(self.pending@ =~= old(self).pending@ + old(self).axis_requests());
                }
            }
            Ok(e)
        } else if TILE_SPAN - BAND <= v && v < TILE_SPAN {
            if self.mapdata2.is_none() {
                return Err(Direction::North);
            }
            Ok(self.mapdata.at(vx, v as usize))
        } else if v < 0 {
            let has_south = match &self.mapdata2 {
                Some(s) => s.dir == Direction::South,
                None => false,
            };
            if !has_south {
                return Err(Direction::South);
            }
            self.back_z = TILE_SPAN;
            match &self.mapdata2 {
                Some(s) => Ok(s.tile.at(vx, (v + TILE_SPAN) as usize)),
                None => Err(Direction::South),
            }
        } else {
            let has_north = match &self.mapdata2 {
                Some(s) => s.dir == Direction::North,
                None => false,
            };
            if !has_north {
                return Err(Direction::North);
            }
            self.back_z = -TILE_SPAN;
            match &self.mapdata2 {
                Some(s) => Ok(s.tile.at(vx, (v - TILE_SPAN) as usize)),
                None => Err(Direction::North),
            }
        }
    }

    /// Resolve one sample's virtual z coordinate against the window.
    ///
    /// Coordinates beyond one span past the tile commit the crossing in
    /// that direction (when the matching secondary tile is held) and
    /// resolve against the re-centered window; `Err(d)` asks the caller
    /// to provide the secondary tile for `d` and retry.
    pub fn resolve_z(&mut self, vx: usize, vz: i64) -> (r: Result<i32, Direction>)
        requires
            old(self).wf(),
            old(self).step_slack(),
            vx < TILE_SIDE,
            -3 * MOVES_BOUND <= vz <= 3 * MOVES_BOUND,
        ensures
            final(self).wf(),
            Self::same_config(old(self), final(self)),
            r is Ok ==> 0 <= r->Ok_0 <= UNIT,
            // no crossing needed: the in-window machine runs unchanged
            -TILE_SPAN <= vz <= TILE_SPAN + AHEAD_SPAN ==> final(self).moves_z == old(
                self,
            ).moves_z && final(self).long == old(self).long && final(self).mapdata == old(
                self,
            ).mapdata && final(self).mapdata2 == old(self).mapdata2,
            // near band: needs a secondary tile received, then reads primary
            0 <= vz <= BAND && old(self).mapdata2 is None ==> r == Err::<i32, Direction>(
                Direction::South,
            ) && *final(self) == *old(self),
            0 <= vz <= BAND && old(self).mapdata2 is Some ==> r is Ok && r->Ok_0 as int
                == old(self).primary_at(vx as int, vz as int) && *final(self) == *old(self),
            // interior: reads primary; the first interior sample after a
            // crossing queues the prefetch of both axis neighbors
            BAND < vz < TILE_SPAN - BAND ==> r is Ok && r->Ok_0 as int == old(self).primary_at(
                vx as int,
                vz as int,
            ) && final(self).back_z == old(self).back_z,
            BAND < vz < TILE_SPAN - BAND && old(self).phase is Crossed ==> final(self).phase
                is Prefetched && final(self).pending@ == old(self).pending@
                + old(self).axis_requests(),
            BAND < vz < TILE_SPAN - BAND && !(old(self).phase is Crossed) ==> *final(self)
                == *old(self),
            // far band: mirror of the near band
            TILE_SPAN - BAND <= vz < TILE_SPAN && old(self).mapdata2 is None ==> r == Err::<
                i32,
                Direction,
            >(Direction::North) && *final(self) == *old(self),
            TILE_SPAN - BAND <= vz < TILE_SPAN && old(self).mapdata2 is Some ==> r is Ok
                && r->Ok_0 as int == old(self).primary_at(vx as int, vz as int) && *final(self)
                == *old(self),
            // behind the tile: reads the south secondary one span up
            -TILE_SPAN <= vz < 0 && old(self).has_secondary(Direction::South) ==> r is Ok
                && r->Ok_0 as int == old(self).secondary_at(vx as int, vz + TILE_SPAN)
                && final(self).back_z == TILE_SPAN && final(self).phase == old(self).phase,
            -TILE_SPAN <= vz < 0 && !old(self).has_secondary(Direction::South) ==> r == Err::<
                i32,
                Direction,
            >(Direction::South) && *final(self) == *old(self),
            // ahead of the tile: reads the north secondary one span down
            TILE_SPAN <= vz <= TILE_SPAN + AHEAD_SPAN && old(self).has_secondary(Direction::North)
                ==> r is Ok && r->Ok_0 as int == old(self).secondary_at(vx as int, vz - TILE_SPAN)
                && final(self).back_z == -TILE_SPAN && final(self).phase == old(self).phase,
            TILE_SPAN <= vz <= TILE_SPAN + AHEAD_SPAN && !old(self).has_secondary(Direction::North)
                ==> r == Err::<i32, Direction>(Direction::North) && *final(self) == *old(self),
            // forward crossing: commit, re-center, resolve the rest
            vz > TILE_SPAN + AHEAD_SPAN && !old(self).has_secondary(Direction::North) ==> r
                == Err::<i32, Direction>(Direction::North) && *final(self) == *old(self),
            vz > TILE_SPAN + AHEAD_SPAN && old(self).has_secondary(Direction::North) ==> {
                &&& final(self).long == old(self).long + 1
                &&& final(self).moves_z == old(self).moves_z - TILE_SPAN
                &&& final(self).mapdata == old(self).mapdata2->Some_0.tile
                &&& final(self).mapdata2 is None
            },
            // the committed sample lands in the new tile's interior:
            // read it there and queue the new tile's prefetch
            vz > TILE_SPAN + AHEAD_SPAN && old(self).has_secondary(Direction::North) && vz
                - TILE_SPAN < TILE_SPAN - BAND ==> r is Ok && r->Ok_0 as int == old(
                self,
            ).mapdata2->Some_0.tile.grid()[vx as int][vz - TILE_SPAN] && final(self).phase
                is Prefetched,
            // or it lands in a band of the new tile, whose secondary is
            // not yet held: the caller provides it and retries
            vz > TILE_SPAN + AHEAD_SPAN && old(self).has_secondary(Direction::North) && vz
                - TILE_SPAN >= TILE_SPAN - BAND ==> r == Err::<i32, Direction>(Direction::North),
            // backward crossing: commit, re-center; the sample then lies
            // behind the new tile, so its south secondary is always asked for
            vz < -TILE_SPAN && !old(self).has_secondary(Direction::South) ==> r == Err::<
                i32,
                Direction,
            >(Direction::South) && *final(self) == *old(self),
            vz < -TILE_SPAN && old(self).has_secondary(Direction::South) ==> {
                &&& r == Err::<i32, Direction>(Direction::South)
                &&& final(self).long == old(self).long - 1
                &&& final(self).moves_z == old(self).moves_z + TILE_SPAN
                &&& final(self).mapdata == old(self).mapdata2->Some_0.tile
                &&& final(self).mapdata2 is None
                &&& final(self).phase is Crossed
            },
    {
        if vz > TILE_SPAN + AHEAD_SPAN {
            let committed = self.commit_crossing(Direction::North);
            if !committed {
                return Err(Direction::North);
            }
            let v2 = vz - TILE_SPAN;
            if v2 > TILE_SPAN + AHEAD_SPAN {
                return Err(Direction::North);
            }
            self.resolve_in_window(vx, v2)
        } else if vz < -TILE_SPAN {
            let committed = self.commit_crossing(Direction::South);
            if !committed {
                return Err(Direction::South);
            }
            Err(Direction::South)
        } else {
            self.resolve_in_window(vx, vz)
        }
    }
}

} // verus!
