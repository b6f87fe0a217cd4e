//! The mesh builder: level-of-detail sampling of the terrain window into
//! a colored vertex grid, the shared triangle index list, and the
//! per-chunk assembly over a grid of world translations.

use vstd::prelude::*;
use vstd::arithmetic::div_mod::{
    lemma_fundamental_div_mod, lemma_fundamental_div_mod_converse,
};
use vstd::arithmetic::mul::lemma_mul_inequality;
use crate::{UNIT, WATER_DROP, TILE_SIDE};
use crate::colormap::{Rgb, interp_spec, shift_seq, terrain_bps, terrain_cols, terrain_ramp};
use crate::window::{Terrain, Direction, TILE_SPAN, BAND, MOVES_BOUND, COORD_BOUND};

verus! {

/// One mesh vertex: `pos_x` and `pos_z` are raw sample coordinates
/// inside the chunk; `pos_y` is the fixed-point elevation after the
/// water clamp; the color comes from the water-shifted terrain ramp.
#[derive(Clone, Copy, Debug, PartialEq, Eq, Structural)]
pub struct Vertex {
    pub pos_x: i64,
    pub pos_y: i32,
    pub pos_z: i64,
    pub color: Rgb,
}

/// The sampling stride for a level of detail: one finer step per level
/// up to 5, then a coarser doubling curve.
pub open spec fn increment_spec(lod: u32) -> int {
    if lod <= 5 {
        lod + 1
    } else {
        2 * (lod - 2)
    }
}

/// Vertices emitted along one chunk axis.
pub open spec fn vpr_spec(chunksize: u32, lod: u32) -> int {
    (chunksize - 1) / increment_spec(lod) + 1
}

/// The six indices of one grid quad, as two counter-consistent
/// triangles.
pub open spec fn tri_indices(cols: int, i: int, j: int) -> Seq<int> {
    let idx0 = j + i * cols;
    let idx1 = j + 1 + i * cols;
    let idx2 = j + 1 + (i + 1) * cols;
    let idx3 = j + (i + 1) * cols;
    seq![idx0, idx1, idx2, idx2, idx3, idx0]
}

/// The water clamp applied to every sampled elevation before coloring.
pub open spec fn water_clamp_spec(y: int, wl: int) -> int {
    if y < wl {
        wl - WATER_DROP
    } else {
        y
    }
}

/// What holds of the `k`-th vertex of a built chunk.
pub open spec fn vertex_ok(v: Vertex, k: int, vpr: int, inc: int, wl: int) -> bool {
    &&& v.pos_x == (k / vpr) * inc
    &&& v.pos_z == (k % vpr) * inc
    &&& wl - WATER_DROP <= v.pos_y <= UNIT
    &&& v.pos_y == wl - WATER_DROP || v.pos_y >= wl
    &&& v.color == interp_spec(shift_seq(terrain_bps(), wl), terrain_cols(), v.pos_y as int)
}

/// Every chunk of the grid keeps its long-axis window inside the
/// primary tile's interior.
pub open spec fn all_interior(t: &Terrain, translations: Seq<(i64, i64)>) -> bool {
    forall|k: int|
        0 <= k < translations.len() ==> {
            let tr = #[trigger] translations[k];
            &&& BAND < tr.1 + t.moves_z
            &&& tr.1 + t.moves_z + t.chunksize <= TILE_SPAN - BAND
        }
}

/// What holds of a whole built chunk: a full `vpr * vpr` grid of
/// vertices, row-major with `pos_x` as the outer axis.
pub open spec fn chunk_ok(data: Seq<Vertex>, chunksize: u32, lod: u32, wl: int) -> bool {
    let inc = increment_spec(lod);
    let vpr = vpr_spec(chunksize, lod);
    &&& data.len() == vpr * vpr
    &&& forall|k: int| 0 <= k < data.len() ==> vertex_ok(#[trigger] data[k], k, vpr, inc, wl)
}

impl Terrain {
    /// Headroom for a whole chunk build, which commits at most one
    /// boundary crossing.
    pub open spec fn build_slack(&self) -> bool {
        &&& -MOVES_BOUND + 2 * TILE_SPAN <= self.moves_z <= MOVES_BOUND - 2 * TILE_SPAN
        &&& -COORD_BOUND + 2 <= self.long <= COORD_BOUND - 2
    }

    /// Every sample of the chunk lies in the primary tile's interior:
    /// no boundary band is touched, so no secondary tile is needed.
    pub open spec fn interior_chunk(&self) -> bool {
        &&& BAND < self.offset_z + self.moves_z
        &&& self.offset_z + self.moves_z + self.chunksize <= TILE_SPAN - BAND
    }

    /// Headroom for a whole multi-chunk rebuild.
    pub open spec fn roam_slack(&self) -> bool {
        &&& -MOVES_BOUND + 3 * TILE_SPAN <= self.moves_z <= MOVES_BOUND - 3 * TILE_SPAN
        &&& -COORD_BOUND + 3 <= self.long <= COORD_BOUND - 3
    }

    /// The triangle-list indices for a `width x height` vertex grid: two
    /// triangles per quad, `6 * (width-1) * (height-1)` entries in all,
    /// every one below `width * height`.
    pub fn create_indices(&mut self, width: u32, height: u32) -> (indices: Vec<u32>)
        requires
            1 <= width,
            1 <= height,
            width * height <= 0xffff_ffff,
        ensures
            *final(self) == *old(self),
            indices@.len() == 6 * (width - 1) * (height - 1),
            forall|k: int| 0 <= k < indices@.len() ==> (#[trigger] indices@[k]) < width * height,
            forall|i: int, j: int, m: int|
                0 <= i < width - 1 && 0 <= j < height - 1 && 0 <= m < 6 ==> indices@[6 * (i * (
                height - 1) + j) + m] as int == tri_indices(height as int, i, j)[m],
    {
        let n_vertices_per_row = height;
        let mut indices: Vec<u32> = Vec::new();
        let mut i: u32 = 0;
        while i < width - 1
            invariant
                1 <= width,
                1 <= height,
                width * height <= 0xffff_ffff,
                0 <= i <= width - 1,
                n_vertices_per_row == height,
                indices@.len() == 6 * (i * (height - 1)),
                forall|k: int|
                    0 <= k < indices@.len() ==> (#[trigger] indices@[k]) < width * height,
                forall|i0: int, j0: int, m: int|
                    0 <= i0 < i && 0 <= j0 < height - 1 && 0 <= m < 6 ==> indices@[6 * (i0 * (
                    height - 1) + j0) + m] as int == tri_indices(height as int, i0, j0)[m],
            decreases width - i,
        {
            let mut j: u32 = 0;
            proof {
                lemma_mul_inequality(i as int, width - 1, height - 1);
            }
            while j < height - 1
                invariant
                    1 <= width,
                    1 <= height,
                    width * height <= 0xffff_ffff,
                    0 <= i < width - 1,
                    0 <= j <= height - 1,
                    n_vertices_per_row == height,
                    indices@.len() == 6 * (i * (height - 1) + j),
                    forall|k: int|
                        0 <= k < indices@.len() ==> (#[trigger] indices@[k]) < width * height,
                    forall|i0: int, j0: int, m: int|
                        0 <= i0 < i && 0 <= j0 < height - 1 && 0 <= m < 6 ==> indices@[6 * (i0 * (
                        height - 1) + j0) + m] as int == tri_indices(height as int, i0, j0)[m],
                    forall|j0: int, m: int|
                        0 <= j0 < j && 0 <= m < 6 ==> indices@[6 * (i * (height - 1) + j0) + m]
                            as int == tri_indices(height as int, i as int, j0)[m],
                decreases height - j,
            {
                proof {
                    lemma_mul_inequality(i as int + 1, width - 1, height as int);
                    lemma_mul_inequality(i as int, width - 1, height - 1);
                    assert((i + 1) * height == i * height + height) by (nonlinear_arith);
                    assert(i * (height - 1) + i == i * height) by (nonlinear_arith);
                    assert((width - 1) * height == width * height - height) by (nonlinear_arith);
                }
                let idx0 = j + i * n_vertices_per_row;
                let idx1 = j + 1 + i * n_vertices_per_row;
                let idx2 = j + 1 + (i + 1) * n_vertices_per_row;
                let idx3 = j + (i + 1) * n_vertices_per_row;
                let ghost before = indices@;
                indices.push(idx0);
                indices.push(idx1);
                indices.push(idx2);
                indices.push(idx2);
                indices.push(idx3);
                indices.push(idx0);
                proof {
                    let base = 6 * (i * (height - 1) + j);
                    assert(indices@.len() == base + 6);
                    assert forall|m: int| 0 <= m < 6 implies indices@[base + m] as int
                        == tri_indices(height as int, i as int, j as int)[m] by {
                        assert(indices@[base + 0] == idx0);
                        assert(indices@[base + 1] == idx1);
                        assert(indices@[base + 2] == idx2);
                        assert(indices@[base + 3] == idx2);
                        assert(indices@[base + 4] == idx3);
                        assert(indices@[base + 5] == idx0);
                    }
                    assert(forall|k: int| 0 <= k < before.len() ==> indices@[k] == before[k]);
                    assert(idx0 < width * height);
                    assert(idx1 < width * height);
                    assert(idx2 < width * height);
                    assert(idx3 < width * height);
                    assert forall|i0: int, j0: int, m: int|
                        0 <= i0 < i && 0 <= j0 < height - 1 && 0 <= m < 6 implies indices@[6 * (i0
                        * (height - 1) + j0) + m] as int == tri_indices(height as int, i0, j0)[m]
                        by {
                        lemma_mul_inequality(i0 + 1, i as int, (height - 1) as int);
                        assert((i0 + 1) * (height - 1) == i0 * (height - 1) + (height - 1))
                            by (nonlinear_arith);
                        assert(6 * (i0 * (height - 1) + j0) + m < before.len());
                    }
                    assert forall|j0: int, m: int|
                        0 <= j0 < j && 0 <= m < 6 implies indices@[6 * (i * (height - 1) + j0)
                        + m] as int == tri_indices(height as int, i as int, j0)[m] by {
                        assert(6 * (i * (height - 1) + j0) + m < before.len());
                    }
                }
                j = j + 1;
            }
            proof {
                assert(6 * (i * (height - 1) + (height - 1)) == 6 * ((i + 1) * (height - 1)))
                    by (nonlinear_arith);
                assert forall|i0: int, j0: int, m: int|
                    0 <= i0 < i + 1 && 0 <= j0 < height - 1 && 0 <= m < 6 implies indices@[6 * (i0
                    * (height - 1) + j0) + m] as int == tri_indices(height as int, i0, j0)[m] by {
                    if i0 == i as int {
                        assert(indices@[6 * (i as int * (height - 1) + j0) + m] as int
                            == tri_indices(height as int, i as int, j0)[m]);
                    }
                }
            }
            i = i + 1;
        }
        proof {
            assert(6 * (width - 1) * (height - 1) == 6 * ((width - 1) * (height - 1)))
                by (nonlinear_arith);
        }
        indices
    }

    /// The sampling stride for the current level of detail.
    pub fn increment_count(&self) -> (inc: u32)
        requires
            self.wf(),
        ensures
            inc as int == increment_spec(self.level_of_detail),
            1 <= inc <= 200,
    {
        if self.level_of_detail <= 5 {
            self.level_of_detail + 1
        } else {
            2 * (self.level_of_detail - 2)
        }
    }

    /// Sample the window into one chunk's colored vertex grid. `Err(d)`
    /// means a boundary band needs the secondary tile for `d` first: the
    /// caller loads it, hands it to `provide_secondary`, and calls again.
    pub fn create_terrain_data(&mut self) -> (r: Result<(Vec<Vertex>, u32), Direction>)
        requires
            old(self).wf(),
            old(self).build_slack(),
            0 <= old(self).offset_x + old(self).moves_x,
            old(self).offset_x + old(self).moves_x + old(self).chunksize <= TILE_SIDE,
        ensures
            final(self).wf(),
            Self::same_config(old(self), final(self)),
            // at most one crossing is committed per build, and it
            // re-centers the pan state by exactly one tile span
            (final(self).moves_z == old(self).moves_z && final(self).long == old(self).long) || (
            final(self).moves_z == old(self).moves_z - TILE_SPAN && final(self).long == old(
                self,
            ).long + 1 && final(self).mapdata2 is None) || (final(self).moves_z == old(
                self,
            ).moves_z + TILE_SPAN && final(self).long == old(self).long - 1 && final(self).mapdata2
                is None),
            old(self).mapdata2 is None ==> final(self).moves_z == old(self).moves_z
                && final(self).long == old(self).long && final(self).mapdata2 is None,
            // a chunk wholly inside the interior always builds, changes
            // no tile state, and each vertex carries the water-clamped
            // sample the window read at its own coordinates
            old(self).interior_chunk() ==> r is Ok && final(self).mapdata == old(self).mapdata
                && final(self).moves_z == old(self).moves_z && final(self).long == old(self).long
                && final(self).mapdata2 == old(self).mapdata2 && final(self).back_z == old(
                self,
            ).back_z,
            old(self).interior_chunk() && r is Ok ==> forall|k: int|
                0 <= k < r->Ok_0.0@.len() ==> (#[trigger] r->Ok_0.0@[k]).pos_y as int
                    == water_clamp_spec(
                    old(self).primary_at(
                        r->Ok_0.0@[k].pos_x + old(self).offset_x + old(self).moves_x,
                        r->Ok_0.0@[k].pos_z + old(self).offset_z + old(self).moves_z,
                    ),
                    old(self).water_level as int,
                ),
            r is Ok ==> r->Ok_0.1 as int == vpr_spec(old(self).chunksize, old(self).level_of_detail)
                && chunk_ok(
                r->Ok_0.0@,
                old(self).chunksize,
                old(self).level_of_detail,
                old(self).water_level as int,
            ),
    {
        let ghost entry = *old(self);
        let inc = self.increment_count();
        let vertices_per_row = (self.chunksize - 1) / inc + 1;
        let ghost vpr = vpr_spec(entry.chunksize, entry.level_of_detail);
        assert(vertices_per_row as int == vpr);
        assert(vertices_per_row <= self.chunksize) by {
            assert((self.chunksize - 1) as int / (inc as int) <= (self.chunksize - 1) as int) by {
                vstd::arithmetic::div_mod::lemma_div_nonincreasing(
                    (self.chunksize - 1) as int,
                    inc as int,
                );
            }
        }
        let ramp = terrain_ramp();
        let shifted = ramp.water_shift(self.water_level);
        let ghost sbp = shift_seq(terrain_bps(), entry.water_level as int);
        assert(shifted.bps() == sbp);
        let wl = self.water_level;
        let mut data: Vec<Vertex> = Vec::new();
        let vpr_us = vertices_per_row as usize;
        let inc_us = inc as usize;
        let mut i: usize = 0;
        while i < vpr_us
            invariant
                entry == *old(self),
                self.wf(),
                Terrain::same_config(&entry, self),
                (self.moves_z == entry.moves_z && self.long == entry.long) || (self.moves_z
                    == entry.moves_z - TILE_SPAN && self.long == entry.long + 1 && self.mapdata2
                    is None) || (self.moves_z == entry.moves_z + TILE_SPAN && self.long
                    == entry.long - 1 && self.mapdata2 is None),
                entry.mapdata2 is None ==> self.mapdata2 is None && self.moves_z
                    == entry.moves_z && self.long == entry.long,
                entry.interior_chunk() ==> self.mapdata == entry.mapdata && self.moves_z
                    == entry.moves_z && self.long == entry.long && self.mapdata2
                    == entry.mapdata2 && self.back_z == entry.back_z,
                entry.interior_chunk() ==> forall|k: int|
                    0 <= k < data@.len() ==> (#[trigger] data@[k]).pos_y as int
                        == water_clamp_spec(
                        entry.primary_at(
                            data@[k].pos_x + entry.offset_x + entry.moves_x,
                            data@[k].pos_z + entry.offset_z + entry.moves_z,
                        ),
                        wl as int,
                    ),
                entry.wf(),
                entry.build_slack(),
                0 <= entry.offset_x + entry.moves_x,
                entry.offset_x + entry.moves_x + entry.chunksize <= TILE_SIDE,
                inc as int == increment_spec(entry.level_of_detail),
                1 <= inc <= 200,
                vpr == vpr_spec(entry.chunksize, entry.level_of_detail),
                vpr_us as int == vpr,
                inc_us == inc,
                1 <= vpr_us <= entry.chunksize,
                wl == entry.water_level,
                shifted.wf(),
                shifted.bps() == sbp,
                shifted.cols() == terrain_cols(),
                sbp == shift_seq(terrain_bps(), entry.water_level as int),
                0 <= i <= vpr_us,
                data@.len() == i * vpr,
                forall|k: int|
                    0 <= k < data@.len() ==> vertex_ok(
                        #[trigger] data@[k],
                        k,
                        vpr,
                        inc as int,
                        wl as int,
                    ),
            decreases vpr_us - i,
        {
            assert(i * inc_us <= 3600 * 200) by (nonlinear_arith)
                requires
                    0 <= i <= 3600,
                    0 <= inc_us <= 200,
            ;
            let x = i * inc_us;
            proof {
                lemma_mul_inequality(i as int, vpr - 1, inc as int);
                assert((vpr - 1) * inc <= entry.chunksize - 1) by {
                    lemma_fundamental_div_mod((entry.chunksize - 1) as int, inc as int);
                    assert(vpr - 1 == (entry.chunksize - 1) as int / (inc as int));
                    assert((inc as int) * ((entry.chunksize - 1) as int / (inc as int)) == ((
                    entry.chunksize - 1) as int / (inc as int)) * (inc as int))
                        by (nonlinear_arith);
                }
            }
            assert(x < entry.chunksize);
            let mut j: usize = 0;
            while j < vpr_us
                invariant
                    entry == *old(self),
                    self.wf(),
                    Terrain::same_config(&entry, self),
                    (self.moves_z == entry.moves_z && self.long == entry.long) || (self.moves_z
                        == entry.moves_z - TILE_SPAN && self.long == entry.long + 1
                        && self.mapdata2 is None) || (self.moves_z == entry.moves_z + TILE_SPAN
                        && self.long == entry.long - 1 && self.mapdata2 is None),
                    entry.mapdata2 is None ==> self.mapdata2 is None && self.moves_z
                        == entry.moves_z && self.long == entry.long,
                    entry.interior_chunk() ==> self.mapdata == entry.mapdata && self.moves_z
                        == entry.moves_z && self.long == entry.long && self.mapdata2
                        == entry.mapdata2 && self.back_z == entry.back_z,
                    entry.interior_chunk() ==> forall|k: int|
                        0 <= k < data@.len() ==> (#[trigger] data@[k]).pos_y as int
                            == water_clamp_spec(
                            entry.primary_at(
                                data@[k].pos_x + entry.offset_x + entry.moves_x,
                                data@[k].pos_z + entry.offset_z + entry.moves_z,
                            ),
                            wl as int,
                        ),
                    entry.wf(),
                    entry.build_slack(),
                    0 <= entry.offset_x + entry.moves_x,
                    entry.offset_x + entry.moves_x + entry.chunksize <= TILE_SIDE,
                    inc as int == increment_spec(entry.level_of_detail),
                    1 <= inc <= 200,
                    vpr == vpr_spec(entry.chunksize, entry.level_of_detail),
                    vpr_us as int == vpr,
                    inc_us == inc,
                    1 <= vpr_us <= entry.chunksize,
                    wl == entry.water_level,
                    shifted.wf(),
                    shifted.bps() == sbp,
                    shifted.cols() == terrain_cols(),
                    sbp == shift_seq(terrain_bps(), entry.water_level as int),
                    0 <= i < vpr_us,
                    x == i * inc_us,
                    x < entry.chunksize,
                    0 <= j <= vpr_us,
                    data@.len() == i * vpr + j,
                    forall|k: int|
                        0 <= k < data@.len() ==> vertex_ok(
                            #[trigger] data@[k],
                            k,
                            vpr,
                            inc as int,
                            wl as int,
                        ),
                decreases vpr_us - j,
            {
                assert(j * inc_us <= 3600 * 200) by (nonlinear_arith)
                    requires
                        0 <= j <= 3600,
                        0 <= inc_us <= 200,
                ;
                let z = j * inc_us;
                proof {
                    lemma_mul_inequality(j as int, vpr - 1, inc as int);
                    assert((vpr - 1) * inc <= entry.chunksize - 1) by {
                        lemma_fundamental_div_mod((entry.chunksize - 1) as int, inc as int);
                        assert((inc as int) * ((entry.chunksize - 1) as int / (inc as int)) == ((
                        entry.chunksize - 1) as int / (inc as int)) * (inc as int))
                            by (nonlinear_arith);
                    }
                }
                assert(z < entry.chunksize);
                let vx: i64 = (x as i64) + self.offset_x + self.moves_x;
                let vz: i64 = (z as i64) + self.offset_z + self.moves_z;
                assert(0 <= vx < TILE_SIDE);
                let rz = self.resolve_z(vx as usize, vz);
                let e = match rz {
                    Ok(e) => e,
                    Err(d) => {
                        proof {
                            if entry.interior_chunk() {
                                assert(BAND < vz < TILE_SPAN - BAND);
                                assert(false);
                            }
                        }
                        return Err(d);
                    },
                };
                let y: i32 = if e < wl {
                    wl - WATER_DROP
                } else {
                    e
                };
                let color = shifted.interpolate(y);
                let v = Vertex { pos_x: x as i64, pos_y: y, pos_z: z as i64, color };
                proof {
                    let k = i * vpr + j;
                    lemma_fundamental_div_mod_converse(k as int, vpr, i as int, j as int);
                    assert(v.pos_x == (k as int / vpr) * inc);
                    assert(v.pos_z == (k as int % vpr) * inc);
                }
                data.push(v);
                j = j + 1;
            }
            proof {
                assert(i * vpr + vpr == (i + 1) * vpr) by (nonlinear_arith);
            }
            i = i + 1;
        }
        proof {
            assert(data@.len() == vpr * vpr) by {
                assert(vpr_us as int * vpr == vpr * vpr) by (nonlinear_arith)
                    requires
                        vpr_us as int == vpr,
                ;
            }
        }
        Ok((data, vertices_per_row))
    }

    /// Build every chunk of an `x_chunks x z_chunks` grid, one call per
    /// translation, all sharing this window. `Err(d)` interrupts the
    /// rebuild until the secondary tile for `d` is provided.
    pub fn create_collection_of_terrain_data(
        &mut self,
        x_chunks: u32,
        z_chunks: u32,
        translations: &Vec<(i64, i64)>,
    ) -> (r: Result<(Vec<Vec<Vertex>>, u32), Direction>)
        requires
            old(self).wf(),
            old(self).roam_slack(),
            translations@.len() == x_chunks * z_chunks,
            forall|k: int|
                0 <= k < translations@.len() ==> {
                    let t = #[trigger] translations@[k];
                    &&& -MOVES_BOUND <= t.0 <= MOVES_BOUND
                    &&& -MOVES_BOUND <= t.1 <= MOVES_BOUND
                    &&& 0 <= t.0 + old(self).moves_x
                    &&& t.0 + old(self).moves_x + old(self).chunksize <= TILE_SIDE
                },
        ensures
            final(self).wf(),
            final(self).water_level == old(self).water_level,
            final(self).chunksize == old(self).chunksize,
            final(self).level_of_detail == old(self).level_of_detail,
            final(self).moves_x == old(self).moves_x,
            final(self).lat == old(self).lat,
            old(self).long - 1 <= final(self).long <= old(self).long + 1,
            // a rebuild wholly inside the interior always succeeds,
            // changes no tile state, and every vertex of every chunk
            // carries the water-clamped sample at its own coordinates
            all_interior(old(self), translations@) ==> r is Ok && final(self).mapdata == old(
                self,
            ).mapdata && final(self).moves_z == old(self).moves_z && final(self).long == old(
                self,
            ).long && final(self).mapdata2 == old(self).mapdata2 && final(self).back_z == old(
                self,
            ).back_z,
            all_interior(old(self), translations@) && r is Ok ==> forall|c: int, k: int|
                0 <= c < r->Ok_0.0@.len() && 0 <= k < r->Ok_0.0@[c]@.len() ==> (
                #[trigger] r->Ok_0.0@[c]@[k]).pos_y as int == water_clamp_spec(
                    old(self).primary_at(
                        r->Ok_0.0@[c]@[k].pos_x + translations@[c].0 + old(self).moves_x,
                        r->Ok_0.0@[c]@[k].pos_z + translations@[c].1 + old(self).moves_z,
                    ),
                    old(self).water_level as int,
                ),
            r is Ok ==> r->Ok_0.0@.len() == x_chunks * z_chunks && r->Ok_0.1 as int == vpr_spec(
                old(self).chunksize,
                old(self).level_of_detail,
            ) && forall|c: int|
                0 <= c < r->Ok_0.0@.len() ==> chunk_ok(
                    (#[trigger] r->Ok_0.0@[c])@,
                    old(self).chunksize,
                    old(self).level_of_detail,
                    old(self).water_level as int,
                ),
    {
        let ghost entry = *old(self);
        let mut data: Vec<Vec<Vertex>> = Vec::new();
        let mut vertices_per_row: u32 = 0;
        let total = translations.len();
        let mut k: usize = 0;
        if total == 0 {
            return Ok((data, (self.chunksize - 1) / self.increment_count() + 1));
        }
        while k < total
            invariant
                entry == *old(self),
                self.wf(),
                entry.wf(),
                entry.roam_slack(),
                self.water_level == entry.water_level,
                self.chunksize == entry.chunksize,
                self.level_of_detail == entry.level_of_detail,
                self.moves_x == entry.moves_x,
                self.lat == entry.lat,
                (self.moves_z == entry.moves_z && self.long == entry.long) || (self.moves_z
                    == entry.moves_z - TILE_SPAN && self.long == entry.long + 1 && self.mapdata2
                    is None) || (self.moves_z == entry.moves_z + TILE_SPAN && self.long
                    == entry.long - 1 && self.mapdata2 is None),
                all_interior(&entry, translations@) ==> self.mapdata == entry.mapdata
                    && self.moves_z == entry.moves_z && self.long == entry.long && self.mapdata2
                    == entry.mapdata2 && self.back_z == entry.back_z,
                all_interior(&entry, translations@) ==> forall|c: int, k: int|
                    0 <= c < data@.len() && 0 <= k < data@[c]@.len() ==> (
                    #[trigger] data@[c]@[k]).pos_y as int == water_clamp_spec(
                        entry.primary_at(
                            data@[c]@[k].pos_x + translations@[c].0 + entry.moves_x,
                            data@[c]@[k].pos_z + translations@[c].1 + entry.moves_z,
                        ),
                        entry.water_level as int,
                    ),
                total == translations@.len(),
                translations@.len() == x_chunks * z_chunks,
                forall|k0: int|
                    0 <= k0 < translations@.len() ==> {
                        let t = #[trigger] translations@[k0];
                        &&& -MOVES_BOUND <= t.0 <= MOVES_BOUND
                        &&& -MOVES_BOUND <= t.1 <= MOVES_BOUND
                        &&& 0 <= t.0 + entry.moves_x
                        &&& t.0 + entry.moves_x + entry.chunksize <= TILE_SIDE
                    },
                0 <= k <= total,
                data@.len() == k,
                k > 0 ==> vertices_per_row as int == vpr_spec(
                    entry.chunksize,
                    entry.level_of_detail,
                ),
                forall|c: int|
                    0 <= c < k ==> chunk_ok(
                        (#[trigger] data@[c])@,
                        entry.chunksize,
                        entry.level_of_detail,
                        entry.water_level as int,
                    ),
            decreases total - k,
        {
            let t = translations[k];
            self.offset_x = t.0;
            self.offset_z = t.1;
            let rc = self.create_terrain_data();
            let dd = match rc {
                Ok(dd) => dd,
                Err(d) => {
                    proof {
                        if all_interior(&entry, translations@) {
                            assert(BAND < translations@[k as int].1 + entry.moves_z);
                            assert(false);
                        }
                    }
                    return Err(d);
                },
            };
            data.push(dd.0);
            vertices_per_row = dd.1;
            k = k + 1;
        }
        Ok((data, vertices_per_row))
    }
}

} // verus!
