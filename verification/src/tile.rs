//! Elevation tiles: trusted access to the srtm tile reader, and the
//! per-tile normalization that maps each tile's own minimum to 0 and its
//! maximum to `UNIT`.

use vstd::prelude::*;
use vstd::arithmetic::div_mod::{
    lemma_div_is_ordered, lemma_div_pos_is_pos, lemma_div_by_multiple,
};
use vstd::arithmetic::mul::lemma_mul_inequality;
use crate::{UNIT, TILE_SIDE};

verus! {

#[verifier::external_type_specification]
#[verifier::external_body]
pub struct ExTile(srtm::Tile);

/// The grid of raw elevation samples held by a loaded tile, indexed
/// `[x][z]` exactly as `srtm::Tile::get(x, z)` reads them.
pub uninterp spec fn tile_samples(t: &srtm::Tile) -> Seq<Seq<int>>;

/// The side length of a loaded tile's sample grid.
pub uninterp spec fn tile_extent(t: &srtm::Tile) -> nat;

/// Relies on srtm::Tile::extent: the grid side of a loaded tile, 3601
/// for one-arc-second tiles and 1201 for three-arc-second tiles; the
/// sample grid is square with that side.
#[verifier::external_body]
fn tile_extent_of(t: &srtm::Tile) -> (r: u32)
    ensures
        r as nat == tile_extent(t),
        r == 3601 || r == 1201,
        tile_samples(t).len() == r as nat,
        forall|x: int|
            0 <= x < tile_samples(t).len() ==> (#[trigger] tile_samples(t)[x]).len() == r as nat,
{
    t.extent()
}

/// Relies on srtm::Tile::get: the raw sample at grid position `(x, z)`.
/// Tiles built by srtm::Tile::from_file always carry a full
/// extent-by-extent grid, so an in-range index cannot panic.
#[verifier::external_body]
fn tile_get(t: &srtm::Tile, x: u32, z: u32) -> (r: i16)
    requires
        (x as nat) < tile_extent(t),
        (z as nat) < tile_extent(t),
    ensures
        r as int == tile_samples(t)[x as int][z as int],
{
    t.get(x, z)
}

/// A vector-of-rows grid seen as mathematical integers.
pub open spec fn gi(g: Seq<Vec<i32>>) -> Seq<Seq<int>> {
    Seq::new(g.len(), |x: int| Seq::new(g[x]@.len(), |z: int| g[x]@[z] as int))
}

/// A rectangular, non-empty grid.
pub open spec fn grid_rect(g: Seq<Seq<int>>) -> bool {
    &&& g.len() > 0
    &&& g[0].len() > 0
    &&& forall|x: int| 0 <= x < g.len() ==> (#[trigger] g[x]).len() == g[0].len()
}

/// The square crop of a larger grid to its first `n` rows and columns.
pub open spec fn crop(g: Seq<Seq<int>>, n: nat) -> Seq<Seq<int>> {
    Seq::new(n, |x: int| g[x].take(n as int))
}

pub open spec fn min2(a: int, b: int) -> int {
    if a < b {
        a
    } else {
        b
    }
}

pub open spec fn max2(a: int, b: int) -> int {
    if a > b {
        a
    } else {
        b
    }
}

/// Left fold of `min2` over one row, starting from `acc`.
pub open spec fn row_min(s: Seq<int>, acc: int) -> int
    decreases s.len(),
{
    if s.len() == 0 {
        acc
    } else {
        min2(row_min(s.drop_last(), acc), s.last())
    }
}

pub open spec fn row_max(s: Seq<int>, acc: int) -> int
    decreases s.len(),
{
    if s.len() == 0 {
        acc
    } else {
        max2(row_max(s.drop_last(), acc), s.last())
    }
}

/// Fold of `row_min` over all rows, starting from `acc`.
pub open spec fn grid_min(g: Seq<Seq<int>>, acc: int) -> int
    decreases g.len(),
{
    if g.len() == 0 {
        acc
    } else {
        row_min(g.last(), grid_min(g.drop_last(), acc))
    }
}

pub open spec fn grid_max(g: Seq<Seq<int>>, acc: int) -> int
    decreases g.len(),
{
    if g.len() == 0 {
        acc
    } else {
        row_max(g.last(), grid_max(g.drop_last(), acc))
    }
}

/// One normalized sample: the tile's own minimum maps to 0 and its
/// maximum to `UNIT`; a uniform tile maps to all zeros.
pub open spec fn norm_value(v: int, lo: int, hi: int) -> int {
    if lo == hi {
        0
    } else {
        (v - lo) * UNIT / (hi - lo)
    }
}

pub const I32_TOP: i32 = 0x7fff_ffff;

pub const I32_BOT: i32 = -0x8000_0000;

/// The whole normalized grid.
pub open spec fn normalize_spec(g: Seq<Seq<int>>) -> Seq<Seq<int>> {
    let lo = grid_min(g, I32_TOP as int);
    let hi = grid_max(g, I32_BOT as int);
    Seq::new(g.len(), |x: int| Seq::new(g[x].len(), |z: int| norm_value(g[x][z], lo, hi)))
}

pub proof fn lemma_row_min_le(s: Seq<int>, acc: int, z: int)
    requires
        0 <= z < s.len(),
    ensures
        row_min(s, acc) <= s[z],
        row_min(s, acc) <= acc,
    decreases s.len(),
{
    lemma_row_min_le_acc(s, acc);
    if z < s.len() - 1 {
        lemma_row_min_le(s.drop_last(), acc, z);
    }
}

pub proof fn lemma_row_min_le_acc(s: Seq<int>, acc: int)
    ensures
        row_min(s, acc) <= acc,
    decreases s.len(),
{
    if s.len() > 0 {
        lemma_row_min_le_acc(s.drop_last(), acc);
    }
}

pub proof fn lemma_row_max_ge(s: Seq<int>, acc: int, z: int)
    requires
        0 <= z < s.len(),
    ensures
        row_max(s, acc) >= s[z],
        row_max(s, acc) >= acc,
    decreases s.len(),
{
    lemma_row_max_ge_acc(s, acc);
    if z < s.len() - 1 {
        lemma_row_max_ge(s.drop_last(), acc, z);
    }
}

pub proof fn lemma_row_max_ge_acc(s: Seq<int>, acc: int)
    ensures
        row_max(s, acc) >= acc,
    decreases s.len(),
{
    if s.len() > 0 {
        lemma_row_max_ge_acc(s.drop_last(), acc);
    }
}

pub proof fn lemma_grid_min_le(g: Seq<Seq<int>>, acc: int, x: int, z: int)
    requires
        0 <= x < g.len(),
        0 <= z < g[x].len(),
    ensures
        grid_min(g, acc) <= g[x][z],
        grid_min(g, acc) <= acc,
    decreases g.len(),
{
    lemma_grid_min_le_acc(g, acc);
    if x == g.len() - 1 {
        lemma_grid_min_le_acc(g.drop_last(), acc);
        lemma_row_min_le(g.last(), grid_min(g.drop_last(), acc), z);
    } else {
        lemma_grid_min_le(g.drop_last(), acc, x, z);
        lemma_row_min_le_acc(g.last(), grid_min(g.drop_last(), acc));
    }
}

pub proof fn lemma_grid_min_le_acc(g: Seq<Seq<int>>, acc: int)
    ensures
        grid_min(g, acc) <= acc,
    decreases g.len(),
{
    if g.len() > 0 {
        lemma_grid_min_le_acc(g.drop_last(), acc);
        lemma_row_min_le_acc(g.last(), grid_min(g.drop_last(), acc));
    }
}

pub proof fn lemma_grid_max_ge(g: Seq<Seq<int>>, acc: int, x: int, z: int)
    requires
        0 <= x < g.len(),
        0 <= z < g[x].len(),
    ensures
        grid_max(g, acc) >= g[x][z],
        grid_max(g, acc) >= acc,
    decreases g.len(),
{
    lemma_grid_max_ge_acc(g, acc);
    if x == g.len() - 1 {
        lemma_grid_max_ge_acc(g.drop_last(), acc);
        lemma_row_max_ge(g.last(), grid_max(g.drop_last(), acc), z);
    } else {
        lemma_grid_max_ge(g.drop_last(), acc, x, z);
        lemma_row_max_ge_acc(g.last(), grid_max(g.drop_last(), acc));
    }
}

pub proof fn lemma_grid_max_ge_acc(g: Seq<Seq<int>>, acc: int)
    ensures
        grid_max(g, acc) >= acc,
    decreases g.len(),
{
    if g.len() > 0 {
        lemma_grid_max_ge_acc(g.drop_last(), acc);
        lemma_row_max_ge_acc(g.last(), grid_max(g.drop_last(), acc));
    }
}

/// The row fold either returns its accumulator or hits some element.
pub proof fn lemma_row_min_witness(s: Seq<int>, acc: int)
    ensures
        row_min(s, acc) == acc || exists|z: int| 0 <= z < s.len() && s[z] == row_min(s, acc),
    decreases s.len(),
{
    if s.len() > 0 {
        lemma_row_min_witness(s.drop_last(), acc);
        let m = row_min(s, acc);
        if m != acc {
            if s.last() == m {
                assert(s[s.len() - 1] == m);
            } else {
                let z = choose|z: int|
                    0 <= z < s.drop_last().len() && s.drop_last()[z] == row_min(
                        s.drop_last(),
                        acc,
                    );
                assert(s[z] == m);
            }
        }
    }
}

pub proof fn lemma_row_max_witness(s: Seq<int>, acc: int)
    ensures
        row_max(s, acc) == acc || exists|z: int| 0 <= z < s.len() && s[z] == row_max(s, acc),
    decreases s.len(),
{
    if s.len() > 0 {
        lemma_row_max_witness(s.drop_last(), acc);
        let m = row_max(s, acc);
        if m != acc {
            if s.last() == m {
                assert(s[s.len() - 1] == m);
            } else {
                let z = choose|z: int|
                    0 <= z < s.drop_last().len() && s.drop_last()[z] == row_max(
                        s.drop_last(),
                        acc,
                    );
                assert(s[z] == m);
            }
        }
    }
}

/// The grid fold either returns its accumulator or hits some sample.
pub proof fn lemma_grid_min_witness(g: Seq<Seq<int>>, acc: int)
    ensures
        grid_min(g, acc) == acc || exists|x: int, z: int|
            0 <= x < g.len() && 0 <= z < g[x].len() && g[x][z] == grid_min(g, acc),
    decreases g.len(),
{
    if g.len() > 0 {
        lemma_grid_min_witness(g.drop_last(), acc);
        let m = grid_min(g, acc);
        let sub = grid_min(g.drop_last(), acc);
        lemma_row_min_witness(g.last(), sub);
        if m != acc {
            if m == sub {
                let (x, z) = choose|x: int, z: int|
                    0 <= x < g.drop_last().len() && 0 <= z < g.drop_last()[x].len()
                        && g.drop_last()[x][z] == sub;
                assert(g[x][z] == m);
            } else {
                let z = choose|z: int| 0 <= z < g.last().len() && g.last()[z] == m;
                assert(g[g.len() - 1][z] == m);
            }
        }
    }
}

pub proof fn lemma_grid_max_witness(g: Seq<Seq<int>>, acc: int)
    ensures
        grid_max(g, acc) == acc || exists|x: int, z: int|
            0 <= x < g.len() && 0 <= z < g[x].len() && g[x][z] == grid_max(g, acc),
    decreases g.len(),
{
    if g.len() > 0 {
        lemma_grid_max_witness(g.drop_last(), acc);
        let m = grid_max(g, acc);
        let sub = grid_max(g.drop_last(), acc);
        lemma_row_max_witness(g.last(), sub);
        if m != acc {
            if m == sub {
                let (x, z) = choose|x: int, z: int|
                    0 <= x < g.drop_last().len() && 0 <= z < g.drop_last()[x].len()
                        && g.drop_last()[x][z] == sub;
                assert(g[x][z] == m);
            } else {
                let z = choose|z: int| 0 <= z < g.last().len() && g.last()[z] == m;
                assert(g[g.len() - 1][z] == m);
            }
        }
    }
}

/// After normalization every sample lies in `[0, UNIT]`; unless the tile
/// is uniform, the minimum 0 and the maximum `UNIT` are both attained,
/// and a uniform tile comes out all zero.
pub proof fn lemma_normalize_bounds(g: Seq<Seq<int>>)
    requires
        grid_rect(g),
        forall|x: int, z: int|
            0 <= x < g.len() && 0 <= z < g[x].len() ==> I32_BOT <= #[trigger] g[x][z] <= I32_TOP,
    ensures
        ({
            let n = normalize_spec(g);
            let lo = grid_min(g, I32_TOP as int);
            let hi = grid_max(g, I32_BOT as int);
            &&& forall|x: int, z: int|
                0 <= x < n.len() && 0 <= z < n[x].len() ==> 0 <= #[trigger] n[x][z] <= UNIT
            &&& lo < hi ==> exists|x: int, z: int|
                0 <= x < n.len() && 0 <= z < n[x].len() && n[x][z] == 0
            &&& lo < hi ==> exists|x: int, z: int|
                0 <= x < n.len() && 0 <= z < n[x].len() && n[x][z] == UNIT
            &&& lo == hi ==> forall|x: int, z: int|
                0 <= x < n.len() && 0 <= z < n[x].len() ==> #[trigger] n[x][z] == 0
        }),
{
    let n = normalize_spec(g);
    let lo = grid_min(g, I32_TOP as int);
    let hi = grid_max(g, I32_BOT as int);
    lemma_grid_min_le(g, I32_TOP as int, 0, 0);
    lemma_grid_max_ge(g, I32_BOT as int, 0, 0);
    assert(lo <= hi);
    assert forall|x: int, z: int|
        0 <= x < n.len() && 0 <= z < n[x].len() implies 0 <= #[trigger] n[x][z] <= UNIT by {
        lemma_grid_min_le(g, I32_TOP as int, x, z);
        lemma_grid_max_ge(g, I32_BOT as int, x, z);
        if lo < hi {
            lemma_div_pos_is_pos((g[x][z] - lo) * UNIT, hi - lo);
            lemma_mul_inequality(g[x][z] - lo, hi - lo, UNIT as int);
            lemma_div_is_ordered((g[x][z] - lo) * UNIT, (hi - lo) * UNIT, hi - lo);
            lemma_div_by_multiple(UNIT as int, hi - lo);
        }
    }
    if lo < hi {
        lemma_grid_min_witness(g, I32_TOP as int);
        lemma_grid_max_witness(g, I32_BOT as int);
        if lo == I32_TOP as int {
            assert(g[0][0] <= I32_TOP as int);
            lemma_grid_min_le(g, I32_TOP as int, 0, 0);
            assert(g[0][0] == lo);
            assert(n[0][0] == norm_value(lo, lo, hi));
        }
        let (x0, z0) = choose|x: int, z: int|
            0 <= x < g.len() && 0 <= z < g[x].len() && g[x][z] == lo;
        assert(norm_value(lo, lo, hi) == (lo - lo) * UNIT / (hi - lo));
        assert((lo - lo) * UNIT == 0 * (hi - lo)) by (nonlinear_arith);
        lemma_div_by_multiple(0, hi - lo);
        assert(n[x0][z0] == 0);
        if hi == I32_BOT as int {
            lemma_grid_max_ge(g, I32_BOT as int, 0, 0);
            assert(g[0][0] == hi);
        }
        let (x1, z1) = choose|x: int, z: int|
            0 <= x < g.len() && 0 <= z < g[x].len() && g[x][z] == hi;
        lemma_div_by_multiple(UNIT as int, hi - lo);
        assert(n[x1][z1] == UNIT);
    }
}

/// One fully normalized elevation tile: a square `TILE_SIDE` grid with
/// samples in `[0, UNIT]`.
pub struct ElevationTile {
    pub data: Vec<Vec<i32>>,
}

impl ElevationTile {
    /// The samples as mathematical integers.
    pub open spec fn grid(&self) -> Seq<Seq<int>> {
        gi(self.data@)
    }

    pub open spec fn wf(&self) -> bool {
        &&& self.grid().len() == TILE_SIDE
        &&& forall|x: int| 0 <= x < TILE_SIDE ==> (#[trigger] self.grid()[x]).len() == TILE_SIDE
        &&& forall|x: int, z: int|
            0 <= x < TILE_SIDE && 0 <= z < TILE_SIDE ==> 0 <= #[trigger] self.grid()[x][z] <= UNIT
    }

    /// The sample at `(x, z)`.
    pub fn at(&self, x: usize, z: usize) -> (r: i32)
        requires
            self.wf(),
            x < TILE_SIDE,
            z < TILE_SIDE,
        ensures
            r as int == self.grid()[x as int][z as int],
            0 <= r <= UNIT,
    {
        proof {
            assert(self.grid().len() == self.data@.len());
            assert(self.grid()[x as int].len() == self.data@[x as int]@.len());
            assert(self.grid()[x as int][z as int] == self.data@[x as int]@[z as int] as int);
        }
        self.data[x][z]
    }
}

/// Normalize an arbitrary rectangular grid of raw samples: the grid's
/// own minimum maps to 0 and its maximum to `UNIT`; a uniform grid maps
/// to all zeros.
pub fn normalize_grid(raw: &Vec<Vec<i32>>) -> (r: Vec<Vec<i32>>)
    requires
        grid_rect(gi(raw@)),
    ensures
        gi(r@) == normalize_spec(gi(raw@)),
{
    let ghost g = gi(raw@);
    let rows = raw.len();
    let cols = raw[0].len();
    proof {
        assert(g.len() == raw@.len());
        assert forall|i: int| 0 <= i < rows implies #[trigger] raw@[i]@.len() == cols by {
            assert(g[i].len() == raw@[i]@.len());
            assert(g[i].len() == g[0].len());
        }
        assert forall|i: int, j: int|
            0 <= i < rows && 0 <= j < cols implies I32_BOT <= #[trigger] g[i][j] <= I32_TOP by {
            assert(g[i][j] == raw@[i]@[j] as int);
        }
    }
    let mut lo: i32 = I32_TOP;
    let mut hi: i32 = I32_BOT;
    let mut x: usize = 0;
    while x < rows
        invariant
            g == gi(raw@),
            grid_rect(g),
            rows == g.len(),
            rows == raw@.len(),
            cols == g[0].len(),
            forall|i: int| 0 <= i < rows ==> #[trigger] raw@[i]@.len() == cols,
            0 <= x <= rows,
            lo as int == grid_min(g.take(x as int), I32_TOP as int),
            hi as int == grid_max(g.take(x as int), I32_BOT as int),
        decreases rows - x,
    {
        let row_len = raw[x].len();
        let mut z: usize = 0;
        let ghost lo_in = lo as int;
        let ghost hi_in = hi as int;
        while z < row_len
            invariant
                g == gi(raw@),
                grid_rect(g),
                rows == g.len(),
                rows == raw@.len(),
                cols == g[0].len(),
                forall|i: int| 0 <= i < rows ==> #[trigger] raw@[i]@.len() == cols,
                0 <= x < rows,
                row_len == cols,
                g[x as int].len() == cols,
                0 <= z <= row_len,
                lo as int == row_min(g[x as int].take(z as int), lo_in),
                hi as int == row_max(g[x as int].take(z as int), hi_in),
            decreases row_len - z,
        {
            let v = raw[x][z];
            proof {
                assert(g[x as int][z as int] == raw@[x as int]@[z as int] as int);
                assert(g[x as int].take(z as int + 1).drop_last() =~= g[x as int].take(
                    z as int,
                ));
                assert(g[x as int].take(z as int + 1).last() == v as int);
            }
            if v < lo {
                lo = v;
            }
            if v > hi {
                hi = v;
            }
            z = z + 1;
        }
        proof {
            assert(g[x as int].take(cols as int) =~= g[x as int]);
            assert(g.take(x as int + 1).drop_last() =~= g.take(x as int));
            assert(g.take(x as int + 1).last() == g[x as int]);
        }
        x = x + 1;
    }
    assert(g.take(rows as int) =~= g);
    let ghost glo = grid_min(g, I32_TOP as int);
    let ghost ghi = grid_max(g, I32_BOT as int);
    proof {
        assert forall|i: int, j: int|
            0 <= i < rows && 0 <= j < cols implies I32_BOT <= #[trigger] g[i][j] <= I32_TOP by {
            assert(g[i][j] == raw@[i]@[j] as int);
        }
        lemma_grid_min_witness(g, I32_TOP as int);
        lemma_grid_max_witness(g, I32_BOT as int);
        assert(I32_BOT <= glo <= I32_TOP);
        assert(I32_BOT <= ghi <= I32_TOP);
    }
    let mut out: Vec<Vec<i32>> = Vec::new();
    let mut x: usize = 0;
    while x < rows
        invariant
            g == gi(raw@),
            grid_rect(g),
            rows == g.len(),
            rows == raw@.len(),
            cols == g[0].len(),
            forall|i: int| 0 <= i < rows ==> #[trigger] raw@[i]@.len() == cols,
            lo as int == glo,
            hi as int == ghi,
            glo == grid_min(g, I32_TOP as int),
            ghi == grid_max(g, I32_BOT as int),
            glo <= ghi,
            I32_BOT <= glo <= I32_TOP,
            I32_BOT <= ghi <= I32_TOP,
            0 <= x <= rows,
            out@.len() == x,
            forall|i: int| 0 <= i < x ==> #[trigger] out@[i]@.len() == cols,
            forall|i: int, j: int|
                0 <= i < x && 0 <= j < cols ==> #[trigger] out@[i]@[j] as int == norm_value(
                    g[i][j],
                    glo,
                    ghi,
                ),
        decreases rows - x,
    {
        let row_len = raw[x].len();
        let mut row: Vec<i32> = Vec::new();
        let mut z: usize = 0;
        while z < row_len
            invariant
                g == gi(raw@),
                grid_rect(g),
                rows == g.len(),
                rows == raw@.len(),
                cols == g[0].len(),
                forall|i: int| 0 <= i < rows ==> #[trigger] raw@[i]@.len() == cols,
                0 <= x < rows,
                row_len == cols,
                g[x as int].len() == cols,
                lo as int == glo,
                hi as int == ghi,
                glo == grid_min(g, I32_TOP as int),
                ghi == grid_max(g, I32_BOT as int),
                glo <= ghi,
                I32_BOT <= glo <= I32_TOP,
                I32_BOT <= ghi <= I32_TOP,
                0 <= z <= row_len,
                row@.len() == z,
                forall|j: int|
                    0 <= j < z ==> #[trigger] row@[j] as int == norm_value(
                        g[x as int][j],
                        glo,
                        ghi,
                    ),
            decreases row_len - z,
        {
            let v = raw[x][z];
            proof {
                assert(g[x as int][z as int] == raw@[x as int]@[z as int] as int);
                lemma_grid_min_le(g, I32_TOP as int, x as int, z as int);
                lemma_grid_max_ge(g, I32_BOT as int, x as int, z as int);
            }
            if lo == hi {
                row.push(0);
            } else {
                let dv: i64 = (v as i64) - (lo as i64);
                let dd: i64 = (hi as i64) - (lo as i64);
                assert(0 <= dv <= 0x1_0000_0000i64);
                assert(0 < dd <= 0x1_0000_0000i64);
                let num: u64 = dv as u64;
                let den: u64 = dd as u64;
                assert(num as int * UNIT <= 0x1_0000_0000 * 1_000_000) by (nonlinear_arith)
                    requires
                        0 <= num as int <= 0x1_0000_0000,
                ;
                let q: u64 = num * 1_000_000 / den;
                proof {
                    lemma_div_pos_is_pos(num as int * UNIT, ghi - glo);
                    lemma_mul_inequality(num as int, ghi - glo, UNIT as int);
                    lemma_div_is_ordered(num as int * UNIT, (ghi - glo) * UNIT, ghi - glo);
                    lemma_div_by_multiple(UNIT as int, ghi - glo);
                    assert(num as int * UNIT == (v as int - glo) * UNIT);
                    assert(q as int == norm_value(g[x as int][z as int], glo, ghi));
                }
                row.push(q as i32);
            }
            z = z + 1;
        }
        out.push(row);
        x = x + 1;
    }
    proof {
        assert(gi(out@) =~= normalize_spec(g)) by {
            assert(gi(out@).len() == rows);
            assert(normalize_spec(g).len() == rows);
            assert forall|i: int| 0 <= i < rows implies gi(out@)[i] =~= normalize_spec(g)[i] by {
                assert(gi(out@)[i].len() == out@[i]@.len());
                assert(normalize_spec(g)[i].len() == g[i].len());
                assert forall|j: int|
                    0 <= j < cols implies gi(out@)[i][j] == normalize_spec(g)[i][j] by {
                    assert(gi(out@)[i][j] == out@[i]@[j] as int);
                    assert(normalize_spec(g)[i][j] == norm_value(g[i][j], glo, ghi));
                }
            }
        }
    }
    out
}

/// Build a normalized `TILE_SIDE` elevation tile from a loaded srtm
/// tile; a tile whose grid is smaller than `TILE_SIDE` is refused.
pub fn normalize_tile(t: &srtm::Tile) -> (r: Option<ElevationTile>)
    ensures
        r is Some <==> tile_extent(t) >= TILE_SIDE,
        r is Some ==> {
            let e = r->Some_0;
            &&& e.wf()
            &&& e.grid() == normalize_spec(crop(tile_samples(t), TILE_SIDE as nat))
        },
{
    let ext = tile_extent_of(t);
    if (ext as usize) < TILE_SIDE {
        return None;
    }
    let ghost c = crop(tile_samples(t), TILE_SIDE as nat);
    let mut raw: Vec<Vec<i32>> = Vec::new();
    let mut x: usize = 0;
    while x < TILE_SIDE
        invariant
            tile_extent(t) >= TILE_SIDE,
            tile_samples(t).len() == tile_extent(t),
            forall|i: int|
                0 <= i < tile_samples(t).len() ==> (#[trigger] tile_samples(t)[i]).len()
                    == tile_extent(t),
            c == crop(tile_samples(t), TILE_SIDE as nat),
            0 <= x <= TILE_SIDE,
            raw@.len() == x,
            forall|i: int| 0 <= i < x ==> #[trigger] raw@[i]@.len() == TILE_SIDE,
            forall|i: int, j: int|
                0 <= i < x && 0 <= j < TILE_SIDE ==> #[trigger] raw@[i]@[j] as int
                    == tile_samples(t)[i][j],
        decreases TILE_SIDE - x,
    {
        let mut row: Vec<i32> = Vec::new();
        let mut z: usize = 0;
        while z < TILE_SIDE
            invariant
                tile_extent(t) >= TILE_SIDE,
                tile_samples(t).len() == tile_extent(t),
                forall|i: int|
                    0 <= i < tile_samples(t).len() ==> (#[trigger] tile_samples(t)[i]).len()
                        == tile_extent(t),
                0 <= x < TILE_SIDE,
                0 <= z <= TILE_SIDE,
                row@.len() == z,
                forall|j: int|
                    0 <= j < z ==> #[trigger] row@[j] as int == tile_samples(t)[x as int][j],
            decreases TILE_SIDE - z,
        {
            let v = tile_get(t, x as u32, z as u32);
            row.push(v as i32);
            z = z + 1;
        }
        raw.push(row);
        x = x + 1;
    }
    let ghost g = gi(raw@);
    proof {
        assert(g =~= c) by {
            assert(g.len() == TILE_SIDE);
            assert(c.len() == TILE_SIDE);
            assert forall|i: int| 0 <= i < TILE_SIDE implies g[i] =~= c[i] by {
                assert(g[i].len() == raw@[i]@.len());
                assert(c[i].len() == TILE_SIDE);
                assert forall|j: int| 0 <= j < TILE_SIDE implies g[i][j] == c[i][j] by {
                    assert(g[i][j] == raw@[i]@[j] as int);
                    assert(c[i][j] == tile_samples(t)[i][j]);
                }
            }
        }
        assert(grid_rect(g)) by {
            assert(g[0].len() == raw@[0]@.len());
            assert forall|i: int| 0 <= i < TILE_SIDE implies (#[trigger] g[i]).len()
                == TILE_SIDE by {
                assert(g[i].len() == raw@[i]@.len());
            }
        }
        assert forall|i: int, j: int|
            0 <= i < c.len() && 0 <= j < c[i].len() implies I32_BOT <= #[trigger] c[i][j]
            <= I32_TOP by {
            assert(c[i][j] == g[i][j]);
            assert(g[i][j] == raw@[i]@[j] as int);
        }
    }
    let data = normalize_grid(&raw);
    proof {
        lemma_normalize_bounds(c);
    }
    let e = ElevationTile { data };
    proof {
        assert(e.grid() == normalize_spec(c));
        assert(normalize_spec(c).len() == TILE_SIDE);
        assert forall|x0: int| 0 <= x0 < TILE_SIDE implies (#[trigger] e.grid()[x0]).len()
            == TILE_SIDE by {
            assert(normalize_spec(c)[x0].len() == c[x0].len());
            assert(c[x0].len() == TILE_SIDE);
        }
        assert forall|x0: int, z0: int|
            0 <= x0 < TILE_SIDE && 0 <= z0 < TILE_SIDE implies 0 <= #[trigger] e.grid()[x0][z0]
            <= UNIT by {
            assert(e.grid()[x0][z0] == normalize_spec(c)[x0][z0]);
        }
    }
    Some(e)
}

/// The loader's fallback rule: a tile that loaded is used as it is; a
/// missing or unreadable one falls back to the designated empty tile.
pub fn resolve_tile_load(loaded: Option<ElevationTile>, fallback: ElevationTile) -> (r:
    ElevationTile)
    requires
        loaded is Some ==> loaded->Some_0.wf(),
        fallback.wf(),
    ensures
        r.wf(),
        loaded is Some ==> r == loaded->Some_0,
        loaded is None ==> r == fallback,
{
    match loaded {
        Some(t) => t,
        None => fallback,
    }
}

impl crate::window::Terrain {
    /// Replace the primary tile with the normalization of a freshly
    /// loaded srtm tile; refused (returning false, changing nothing)
    /// when the tile's grid is smaller than the window needs.
    pub fn find_world_map(&mut self, t: &srtm::Tile) -> (ok: bool)
        requires
            old(self).wf(),
        ensures
            final(self).wf(),
            ok <==> tile_extent(t) >= TILE_SIDE,
            !ok ==> *final(self) == *old(self),
            ok ==> final(self).mapdata.grid() == normalize_spec(
                crop(tile_samples(t), TILE_SIDE as nat),
            ),
            final(self).mapdata2 == old(self).mapdata2,
            final(self).moves_z == old(self).moves_z,
            final(self).moves_x == old(self).moves_x,
            final(self).offset_x == old(self).offset_x,
            final(self).offset_z == old(self).offset_z,
            final(self).long == old(self).long,
            final(self).lat == old(self).lat,
            final(self).phase == old(self).phase,
            final(self).back_z == old(self).back_z,
            final(self).pending == old(self).pending,
            final(self).water_level == old(self).water_level,
            final(self).chunksize == old(self).chunksize,
            final(self).level_of_detail == old(self).level_of_detail,
    {
        match normalize_tile(t) {
            Some(e) => {
                self.mapdata = e;
                true
            },
            None => false,
        }
    }
}

} // verus!
