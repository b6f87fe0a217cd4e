//! Height-to-color mapping: a ramp of fixed-point breakpoints with one
//! color per breakpoint, linear interpolation between neighboring
//! breakpoints, and a water-level rescale of the breakpoints.

use vstd::prelude::*;
use vstd::arithmetic::div_mod::{
    lemma_div_is_ordered, lemma_div_pos_is_pos, lemma_div_by_multiple,
};
use vstd::arithmetic::mul::lemma_mul_inequality;
use crate::UNIT;

verus! {

/// One color; channels are fixed-point values in `[0, UNIT]`.
#[derive(Clone, Copy, PartialEq, Eq, Structural, Debug)]
pub struct Rgb {
    pub red: i32,
    pub green: i32,
    pub blue: i32,
}

pub open spec fn rgb_wf(c: Rgb) -> bool {
    &&& 0 <= c.red <= UNIT
    &&& 0 <= c.green <= UNIT
    &&& 0 <= c.blue <= UNIT
}

/// The breakpoint vector seen as mathematical integers.
pub open spec fn ints(v: Seq<i32>) -> Seq<int> {
    Seq::new(v.len(), |i: int| v[i] as int)
}

/// Breakpoints are non-decreasing, start at 0 and stay within `[0, UNIT]`;
/// one color per breakpoint.
pub open spec fn ramp_wf(bp: Seq<int>, cols: Seq<Rgb>) -> bool {
    &&& bp.len() == cols.len()
    &&& bp.len() >= 2
    &&& bp[0] == 0
    &&& forall|i: int| 0 <= i < bp.len() ==> 0 <= #[trigger] bp[i] <= UNIT
    &&& forall|i: int| 0 <= i < bp.len() - 1 ==> bp[i] <= #[trigger] bp[i + 1]
    &&& forall|i: int| 0 <= i < cols.len() ==> rgb_wf(#[trigger] cols[i])
}

/// Additionally: breakpoints strictly increase and end exactly at `UNIT`.
pub open spec fn ramp_strict_wf(bp: Seq<int>, cols: Seq<Rgb>) -> bool {
    &&& ramp_wf(bp, cols)
    &&& forall|i: int| 0 <= i < bp.len() - 1 ==> bp[i] < #[trigger] bp[i + 1]
    &&& bp[bp.len() - 1] == UNIT
}

pub open spec fn clamp_to(t: int, lo: int, hi: int) -> int {
    if t < lo {
        lo
    } else if t > hi {
        hi
    } else {
        t
    }
}

/// Index of the breakpoint segment that contains `t`, scanning from `i`:
/// the first `k >= i` with `t < bp[k+1]`, or the last index.
pub open spec fn seg_index(bp: Seq<int>, t: int, i: int) -> int
    recommends
        0 <= i < bp.len(),
    decreases bp.len() - i,
{
    if i + 1 >= bp.len() {
        i
    } else if t < bp[i + 1] {
        i
    } else {
        seg_index(bp, t, i + 1)
    }
}

/// Exact linear interpolation of one channel from `a` at offset 0 to `b` at
/// offset `d`, evaluated at offset `dt` (integer division toward zero on a
/// non-negative quotient).
pub open spec fn lerp(a: int, b: int, dt: int, d: int) -> int {
    if b >= a {
        a + (b - a) * dt / d
    } else {
        a - (a - b) * dt / d
    }
}

/// What `interpolate` returns: clamp `t` into the ramp's domain, find the
/// enclosing breakpoint pair, and interpolate each channel.
pub open spec fn interp_spec(bp: Seq<int>, cols: Seq<Rgb>, t: int) -> Rgb
    recommends
        ramp_wf(bp, cols),
{
    let tc = clamp_to(t, bp[0], bp[bp.len() - 1]);
    let k = seg_index(bp, tc, 0);
    if k == bp.len() - 1 {
        cols[k]
    } else {
        let d = bp[k + 1] - bp[k];
        let dt = tc - bp[k];
        Rgb {
            red: lerp(cols[k].red as int, cols[k + 1].red as int, dt, d) as i32,
            green: lerp(cols[k].green as int, cols[k + 1].green as int, dt, d) as i32,
            blue: lerp(cols[k].blue as int, cols[k + 1].blue as int, dt, d) as i32,
        }
    }
}

/// The water-level rescale of a breakpoint vector: the first breakpoint
/// stays at 0, the second lands exactly on `wl`, and every later one keeps
/// its distance from the second scaled by `(UNIT - wl) / (UNIT - bp[1])`.
pub open spec fn shift_seq(bp: Seq<int>, wl: int) -> Seq<int> {
    Seq::new(
        bp.len(),
        |i: int|
            if i == 0 {
                0
            } else {
                wl + (bp[i] - bp[1]) * (UNIT - wl) / (UNIT - bp[1])
            },
    )
}

/// Non-decreasing adjacent breakpoints give a totally ordered vector.
pub proof fn lemma_bp_sorted(bp: Seq<int>, i: int, j: int)
    requires
        forall|k: int| 0 <= k < bp.len() - 1 ==> bp[k] <= #[trigger] bp[k + 1],
        0 <= i <= j < bp.len(),
    ensures
        bp[i] <= bp[j],
    decreases j - i,
{
    if i < j {
        lemma_bp_sorted(bp, i + 1, j);
    }
}

/// A height-to-color ramp: one color at each breakpoint.
pub struct ColorRamp {
    pub breakpoints: Vec<i32>,
    pub colors: Vec<Rgb>,
}

impl ColorRamp {
    pub open spec fn bps(&self) -> Seq<int> {
        ints(self.breakpoints@)
    }

    pub open spec fn cols(&self) -> Seq<Rgb> {
        self.colors@
    }

    pub open spec fn wf(&self) -> bool {
        ramp_wf(self.bps(), self.cols())
    }

    pub open spec fn strict_wf(&self) -> bool {
        ramp_strict_wf(self.bps(), self.cols())
    }

    /// Color for a height `t`: clamp into the ramp's domain, then linearly
    /// interpolate between the two enclosing breakpoints.
    pub fn interpolate(&self, t: i32) -> (c: Rgb)
        requires
            self.wf(),
        ensures
            c == interp_spec(self.bps(), self.cols(), t as int),
            rgb_wf(c),
    {
        let ghost bp = self.bps();
        let n = self.breakpoints.len();
        let lo = self.breakpoints[0];
        let hi = self.breakpoints[n - 1];
        proof {
            lemma_bp_sorted(bp, 0, n - 1);
        }
        let tc: i32 = if t < lo {
            lo
        } else if t > hi {
            hi
        } else {
            t
        };
        assert(tc as int == clamp_to(t as int, bp[0], bp[n - 1]));
        let mut k: usize = 0;
        while k + 1 < n && self.breakpoints[k + 1] <= tc
            invariant
                self.wf(),
                n == self.breakpoints.len(),
                bp == self.bps(),
                0 <= k < n,
                bp[k as int] <= tc as int,
                seg_index(bp, tc as int, 0) == seg_index(bp, tc as int, k as int),
            decreases n - k,
        {
            k = k + 1;
        }
        assert(seg_index(bp, tc as int, 0) == k as int);
        if k + 1 == n {
            self.colors[k]
        } else {
            let a = self.colors[k];
            let b = self.colors[k + 1];
            let d = self.breakpoints[k + 1] - self.breakpoints[k];
            let dt = tc - self.breakpoints[k];
            let red = lerp_exec(a.red, b.red, dt, d);
            let green = lerp_exec(a.green, b.green, dt, d);
            let blue = lerp_exec(a.blue, b.blue, dt, d);
            Rgb { red, green, blue }
        }
    }

    /// Rescaled ramp: the colors are kept, the breakpoints are shifted so
    /// that the second breakpoint lands exactly on `water_level`.
    pub fn water_shift(&self, water_level: i32) -> (r: ColorRamp)
        requires
            self.wf(),
            0 < water_level < UNIT,
            self.bps()[1] < UNIT,
        ensures
            r.cols() == self.cols(),
            r.bps() == shift_seq(self.bps(), water_level as int),
            r.wf(),
            r.bps()[1] == water_level as int,
    {
        let ghost bp = self.bps();
        let ghost wl = water_level as int;
        let n = self.breakpoints.len();
        let b1 = self.breakpoints[1];
        assert(0 <= bp[1]) by {
            lemma_bp_sorted(bp, 0, 1);
        }
        let mut out: Vec<i32> = Vec::new();
        out.push(0);
        let mut i: usize = 1;
        while i < n
            invariant
                self.wf(),
                bp == self.bps(),
                0 < wl < UNIT,
                0 <= bp[1] < UNIT,
                b1 as int == bp[1],
                water_level as int == wl,
                n == self.breakpoints.len(),
                1 <= i <= n,
                out@.len() == i,
                forall|j: int| 0 <= j < i ==> #[trigger] out@[j] as int == shift_seq(bp, wl)[j],
                forall|j: int| 0 <= j < i ==> 0 <= #[trigger] out@[j] as int <= UNIT,
                forall|j: int| 0 <= j < i - 1 ==> out@[j] as int <= #[trigger] out@[j + 1] as int,
            decreases n - i,
        {
            proof {
                lemma_bp_sorted(bp, 1, i as int);
            }
            let num: u64 = (self.breakpoints[i] - b1) as u64;
            assert(num as int * (UNIT - wl) <= 1_000_000 * 1_000_000) by (nonlinear_arith)
                requires
                    0 <= num as int <= 1_000_000,
                    0 <= UNIT - wl <= 1_000_000,
            ;
            let q: u64 = num * ((UNIT - water_level) as u64) / ((UNIT - b1) as u64);
            proof {
                lemma_div_pos_is_pos(num as int * (UNIT - wl), UNIT - bp[1]);
                lemma_mul_inequality(num as int, UNIT - bp[1], UNIT - wl);
                lemma_div_is_ordered(
                    num as int * (UNIT - wl),
                    (UNIT - bp[1]) * (UNIT - wl),
                    UNIT - bp[1],
                );
                lemma_div_by_multiple(UNIT - wl, UNIT - bp[1]);
            }
            assert(q as int <= UNIT - wl);
            let v: i32 = water_level + (q as i32);
            assert(v as int == shift_seq(bp, wl)[i as int]);
            assert(i > 1 ==> out@[i - 1] as int <= v as int) by {
                if i > 1 {
                    lemma_bp_sorted(bp, i - 1, i as int);
                    lemma_mul_inequality(bp[i - 1] - bp[1], bp[i as int] - bp[1], UNIT - wl);
                    lemma_div_is_ordered(
                        (bp[i - 1] - bp[1]) * (UNIT - wl),
                        (bp[i as int] - bp[1]) * (UNIT - wl),
                        UNIT - bp[1],
                    );
                }
            };
            out.push(v);
            i = i + 1;
        }
        let r = ColorRamp { breakpoints: out, colors: self.colors.clone() };
        proof {
            assert(r.cols() =~= self.cols());
            assert(r.bps() =~= shift_seq(bp, wl));
        }
        r
    }
}

/// One interpolated channel; all intermediate arithmetic stays in `u64`.
fn lerp_exec(a: i32, b: i32, dt: i32, d: i32) -> (r: i32)
    requires
        0 <= a <= UNIT,
        0 <= b <= UNIT,
        0 <= dt < d,
        0 < d <= UNIT,
    ensures
        r as int == lerp(a as int, b as int, dt as int, d as int),
        a <= b ==> a <= r <= b,
        b <= a ==> b <= r <= a,
{
    if b >= a {
        let diff: u64 = (b - a) as u64;
        assert(diff as int * (dt as int) <= 1_000_000 * 1_000_000) by (nonlinear_arith)
            requires
                0 <= diff as int <= 1_000_000,
                0 <= dt as int <= 1_000_000,
        ;
        let q: u64 = diff * (dt as u64) / (d as u64);
        proof {
            lemma_div_pos_is_pos(diff as int * dt, d as int);
            lemma_mul_inequality(dt as int, d as int, diff as int);
            lemma_div_is_ordered(diff as int * dt, diff as int * d, d as int);
            lemma_div_by_multiple(diff as int, d as int);
            assert(diff as int * dt == (b - a) * dt);
        }
        a + (q as i32)
    } else {
        let diff: u64 = (a - b) as u64;
        assert(diff as int * (dt as int) <= 1_000_000 * 1_000_000) by (nonlinear_arith)
            requires
                0 <= diff as int <= 1_000_000,
                0 <= dt as int <= 1_000_000,
        ;
        let q: u64 = diff * (dt as u64) / (d as u64);
        proof {
            lemma_div_pos_is_pos(diff as int * dt, d as int);
            lemma_mul_inequality(dt as int, d as int, diff as int);
            lemma_div_is_ordered(diff as int * dt, diff as int * d, d as int);
            lemma_div_by_multiple(diff as int, d as int);
            assert(diff as int * dt == (a - b) * dt);
        }
        a - (q as i32)
    }
}

/// Walking `seg_index` forward one step keeps the result, as long as the
/// step is still inside the region the scan would skip.
proof fn lemma_seg_advance(bp: Seq<int>, t: int, j: int, i: int)
    requires
        forall|k: int| 0 <= k < bp.len() - 1 ==> bp[k] <= #[trigger] bp[k + 1],
        0 <= j <= i < bp.len(),
        t >= bp[i],
        i == bp.len() - 1 || t < bp[i + 1],
    ensures
        seg_index(bp, t, j) == i,
    decreases i - j,
{
    if j < i {
        lemma_bp_sorted(bp, j + 1, i);
        lemma_seg_advance(bp, t, j + 1, i);
    }
}

/// Interpolating exactly at a breakpoint of a strictly increasing ramp
/// returns that breakpoint's color exactly.
pub proof fn lemma_interpolate_at_breakpoint(bp: Seq<int>, cols: Seq<Rgb>, i: int)
    requires
        ramp_strict_wf(bp, cols),
        0 <= i < bp.len(),
    ensures
        interp_spec(bp, cols, bp[i]) == cols[i],
{
    let n = bp.len() as int;
    lemma_bp_sorted(bp, 0, i);
    lemma_bp_sorted(bp, i, n - 1);
    let tc = clamp_to(bp[i], bp[0], bp[n - 1]);
    assert(tc == bp[i]);
    if i == n - 1 {
        lemma_seg_advance(bp, tc, 0, i);
    } else {
        lemma_seg_advance(bp, tc, 0, i);
        let d = bp[i + 1] - bp[i];
        assert(d > 0);
        assert(lerp(cols[i].red as int, cols[i + 1].red as int, 0, d) == cols[i].red) by {
            lemma_zero_quotient(cols[i].red as int, cols[i + 1].red as int, d);
        }
        assert(lerp(cols[i].green as int, cols[i + 1].green as int, 0, d) == cols[i].green) by {
            lemma_zero_quotient(cols[i].green as int, cols[i + 1].green as int, d);
        }
        assert(lerp(cols[i].blue as int, cols[i + 1].blue as int, 0, d) == cols[i].blue) by {
            lemma_zero_quotient(cols[i].blue as int, cols[i + 1].blue as int, d);
        }
    }
}

proof fn lemma_zero_quotient(a: int, b: int, d: int)
    requires
        0 < d,
    ensures
        lerp(a, b, 0, d) == a,
{
    if b >= a {
        lemma_div_by_multiple(0, d);
        assert((b - a) * 0 == 0 * d) by (nonlinear_arith);
    } else {
        lemma_div_by_multiple(0, d);
        assert((a - b) * 0 == 0 * d) by (nonlinear_arith);
    }
}

/// Re-applying the water-level rescale with the same level changes
/// nothing: the shift is idempotent.
pub proof fn lemma_water_shift_idempotent(bp: Seq<int>, wl: int)
    requires
        bp.len() >= 2,
        bp[0] == 0,
        forall|i: int| 0 <= i < bp.len() ==> 0 <= #[trigger] bp[i] <= UNIT,
        forall|i: int| 0 <= i < bp.len() - 1 ==> bp[i] <= #[trigger] bp[i + 1],
        0 < wl < UNIT,
        bp[1] < UNIT,
    ensures
        shift_seq(shift_seq(bp, wl), wl) == shift_seq(bp, wl),
        shift_seq(bp, wl)[1] == wl,
{
    let s1 = shift_seq(bp, wl);
    let s2 = shift_seq(s1, wl);
    assert(s1[1] == wl + (bp[1] - bp[1]) * (UNIT - wl) / (UNIT - bp[1]));
    lemma_div_by_multiple(0, UNIT - bp[1]);
    assert((bp[1] - bp[1]) * (UNIT - wl) == 0 * (UNIT - bp[1])) by (nonlinear_arith);
    assert(s1[1] == wl);
    assert forall|i: int| 0 <= i < s2.len() implies s2[i] == s1[i] by {
        if i >= 1 {
            lemma_bp_sorted(bp, 1, i);
            lemma_div_pos_is_pos((bp[i] - bp[1]) * (UNIT - wl), UNIT - bp[1]);
            assert(s1[i] >= wl);
            let d = s1[i] - wl;
            assert(s2[i] == wl + (s1[i] - s1[1]) * (UNIT - wl) / (UNIT - s1[1]));
            lemma_div_by_multiple(d, UNIT - wl);
            assert(s2[i] == wl + d);
        }
    }
    assert(s2 =~= s1);
}

/// The breakpoints of the terrain palette.
pub open spec fn terrain_bps() -> Seq<int> {
    seq![0int, 300_000, 350_000, 600_000, 900_000, 1_000_000]
}

/// The colors of the terrain palette: water, sand, grass, rock, snow,
/// with snow held to the top of the domain.
pub open spec fn terrain_cols() -> Seq<Rgb> {
    seq![
        Rgb { red: 55_000, green: 529_000, blue: 800_000 },
        Rgb { red: 761_000, green: 698_000, blue: 502_000 },
        Rgb { red: 204_000, green: 549_000, blue: 192_000 },
        Rgb { red: 353_000, green: 302_000, blue: 255_000 },
        Rgb { red: 1_000_000, green: 980_000, blue: 980_000 },
        Rgb { red: 1_000_000, green: 980_000, blue: 980_000 },
    ]
}

/// The five-band terrain palette, with the breakpoints used by the mesh
/// builder.
pub fn terrain_ramp() -> (r: ColorRamp)
    ensures
        r.strict_wf(),
        r.bps() =~= terrain_bps(),
        r.cols() =~= terrain_cols(),
{
    let breakpoints: Vec<i32> = vec![0, 300_000, 350_000, 600_000, 900_000, 1_000_000];
    let colors: Vec<Rgb> = vec![
        Rgb { red: 55_000, green: 529_000, blue: 800_000 },
        Rgb { red: 761_000, green: 698_000, blue: 502_000 },
        Rgb { red: 204_000, green: 549_000, blue: 192_000 },
        Rgb { red: 353_000, green: 302_000, blue: 255_000 },
        Rgb { red: 1_000_000, green: 980_000, blue: 980_000 },
        Rgb { red: 1_000_000, green: 980_000, blue: 980_000 },
    ];
    let r = ColorRamp { breakpoints, colors };
    proof {
        assert(r.bps() =~= terrain_bps());
        assert(r.cols() =~= terrain_cols());
    }
    r
}

} // verus!

use vstd::string::StrSliceExecFns;

verus! {

/// Character-for-character equality of two string slices.
fn str_eq(a: &str, b: &str) -> (r: bool)
    ensures
        r == (a@ == b@),
{
    let la = a.unicode_len();
    let lb = b.unicode_len();
    if la != lb {
        proof {
            assert(a@ != b@);
        }
        return false;
    }
    let mut i: usize = 0;
    while i < la
        invariant
            la == a@.len(),
            lb == b@.len(),
            la == lb,
            0 <= i <= la,
            forall|k: int| 0 <= k < i ==> a@[k] == b@[k],
        decreases la - i,
    {
        let ca = a.get_char(i);
        let cb = b.get_char(i);
        if ca != cb {
            proof {
                assert(a@[i as int] != b@[i as int]);
            }
            return false;
        }
        i = i + 1;
    }
    proof {
        assert(a@ =~= b@);
    }
    true
}

/// Breakpoints of the eleven-color preset palettes: evenly spaced over
/// the whole domain.
pub open spec fn preset_bps() -> Seq<int> {
    seq![
        0int, 100_000, 200_000, 300_000, 400_000, 500_000, 600_000, 700_000, 800_000, 900_000,
        1_000_000,
    ]
}

pub open spec fn mountain_cols() -> Seq<Rgb> {
    seq![
        Rgb { red: 0, green: 0, blue: 1_000_000 },
        Rgb { red: 700_000, green: 700_000, blue: 500_000 },
        Rgb { red: 0, green: 1_000_000, blue: 0 },
        Rgb { red: 0, green: 1_000_000, blue: 0 },
        Rgb { red: 250_000, green: 160_000, blue: 100_000 },
        Rgb { red: 250_000, green: 160_000, blue: 100_000 },
        Rgb { red: 250_000, green: 160_000, blue: 100_000 },
        Rgb { red: 250_000, green: 160_000, blue: 100_000 },
        Rgb { red: 250_000, green: 160_000, blue: 100_000 },
        Rgb { red: 1_000_000, green: 1_000_000, blue: 1_000_000 },
        Rgb { red: 1_000_000, green: 1_000_000, blue: 1_000_000 },
    ]
}

pub open spec fn test_cols() -> Seq<Rgb> {
    seq![
        Rgb { red: 0, green: 462_700, blue: 27_500 },
        Rgb { red: 0, green: 321_600, blue: 117_600 },
        Rgb { red: 0, green: 168_600, blue: 219_600 },
        Rgb { red: 0, green: 39_200, blue: 309_800 },
        Rgb { red: 0, green: 90_200, blue: 396_100 },
        Rgb { red: 0, green: 227_500, blue: 486_300 },
        Rgb { red: 0, green: 380_400, blue: 584_300 },
        Rgb { red: 51_000, green: 525_500, blue: 686_300 },
        Rgb { red: 313_700, green: 654_900, blue: 768_600 },
        Rgb { red: 592_200, green: 796_100, blue: 862_700 },
        Rgb { red: 902_000, green: 949_000, blue: 964_700 },
    ]
}

pub open spec fn jet_cols() -> Seq<Rgb> {
    seq![
        Rgb { red: 0, green: 0, blue: 510_000 },
        Rgb { red: 0, green: 240_000, blue: 670_000 },
        Rgb { red: 10_000, green: 490_000, blue: 780_000 },
        Rgb { red: 10_000, green: 750_000, blue: 890_000 },
        Rgb { red: 20_000, green: 1_000_000, blue: 1_000_000 },
        Rgb { red: 510_000, green: 1_000_000, blue: 500_000 },
        Rgb { red: 1_000_000, green: 1_000_000, blue: 0 },
        Rgb { red: 990_000, green: 670_000, blue: 0 },
        Rgb { red: 990_000, green: 330_000, blue: 0 },
        Rgb { red: 980_000, green: 0, blue: 0 },
        Rgb { red: 500_000, green: 0, blue: 0 },
    ]
}

fn preset_breakpoints() -> (v: Vec<i32>)
    ensures
        ints(v@) =~= preset_bps(),
{
    let v: Vec<i32> = vec![
        0, 100_000, 200_000, 300_000, 400_000, 500_000, 600_000, 700_000, 800_000, 900_000,
        1_000_000,
    ];
    proof {
        assert(ints(v@) =~= preset_bps());
    }
    v
}

/// The preconfigured palettes, by name; any unknown name gets the jet
/// palette.
pub fn colormap_data(colormap_name: &str) -> (r: ColorRamp)
    ensures
        r.strict_wf(),
        r.bps() == preset_bps(),
        colormap_name@ == "mountain"@ ==> r.cols() == mountain_cols(),
        colormap_name@ == "test"@ ==> r.cols() == test_cols(),
        colormap_name@ != "mountain"@ && colormap_name@ != "test"@ ==> r.cols() == jet_cols(),
{
    proof {
        reveal_strlit("mountain");
        reveal_strlit("test");
        assert("mountain"@.len() == 8);
        assert("test"@.len() == 4);
    }
    let breakpoints = preset_breakpoints();
    let colors: Vec<Rgb> = if str_eq(colormap_name, "mountain") {
        vec![
            Rgb { red: 0, green: 0, blue: 1_000_000 },
            Rgb { red: 700_000, green: 700_000, blue: 500_000 },
            Rgb { red: 0, green: 1_000_000, blue: 0 },
            Rgb { red: 0, green: 1_000_000, blue: 0 },
            Rgb { red: 250_000, green: 160_000, blue: 100_000 },
            Rgb { red: 250_000, green: 160_000, blue: 100_000 },
            Rgb { red: 250_000, green: 160_000, blue: 100_000 },
            Rgb { red: 250_000, green: 160_000, blue: 100_000 },
            Rgb { red: 250_000, green: 160_000, blue: 100_000 },
            Rgb { red: 1_000_000, green: 1_000_000, blue: 1_000_000 },
            Rgb { red: 1_000_000, green: 1_000_000, blue: 1_000_000 },
        ]
    } else if str_eq(colormap_name, "test") {
        vec![
            Rgb { red: 0, green: 462_700, blue: 27_500 },
            Rgb { red: 0, green: 321_600, blue: 117_600 },
            Rgb { red: 0, green: 168_600, blue: 219_600 },
            Rgb { red: 0, green: 39_200, blue: 309_800 },
            Rgb { red: 0, green: 90_200, blue: 396_100 },
            Rgb { red: 0, green: 227_500, blue: 486_300 },
            Rgb { red: 0, green: 380_400, blue: 584_300 },
            Rgb { red: 51_000, green: 525_500, blue: 686_300 },
            Rgb { red: 313_700, green: 654_900, blue: 768_600 },
            Rgb { red: 592_200, green: 796_100, blue: 862_700 },
            Rgb { red: 902_000, green: 949_000, blue: 964_700 },
        ]
    } else {
        vec![
            Rgb { red: 0, green: 0, blue: 510_000 },
            Rgb { red: 0, green: 240_000, blue: 670_000 },
            Rgb { red: 10_000, green: 490_000, blue: 780_000 },
            Rgb { red: 10_000, green: 750_000, blue: 890_000 },
            Rgb { red: 20_000, green: 1_000_000, blue: 1_000_000 },
            Rgb { red: 510_000, green: 1_000_000, blue: 500_000 },
            Rgb { red: 1_000_000, green: 1_000_000, blue: 0 },
            Rgb { red: 990_000, green: 670_000, blue: 0 },
            Rgb { red: 990_000, green: 330_000, blue: 0 },
            Rgb { red: 980_000, green: 0, blue: 0 },
            Rgb { red: 500_000, green: 0, blue: 0 },
        ]
    };
    let r = ColorRamp { breakpoints, colors };
    proof {
        if colormap_name@ == "mountain"@ {
            assert(r.cols() =~= mountain_cols());
        } else if colormap_name@ == "test"@ {
            assert(r.cols() =~= test_cols());
        } else {
            assert(r.cols() =~= jet_cols());
        }
    }
    r
}

/// The height `t`, clamped into `[lo, hi]` and rescaled so that `lo`
/// maps to 0 and `hi` to `UNIT`.
pub open spec fn rescale(t: int, lo: int, hi: int) -> int {
    (clamp_to(t, lo, hi) - lo) * UNIT / (hi - lo)
}

/// Clamp a height into `[tmin, tmax]`, rescale it over that span, and
/// interpolate it through the ramp.
pub fn color_interp(ramp: &ColorRamp, tmin: i32, tmax: i32, t: i32) -> (c: Rgb)
    requires
        ramp.wf(),
        -UNIT <= tmin < tmax <= UNIT,
    ensures
        c == interp_spec(ramp.bps(), ramp.cols(), rescale(t as int, tmin as int, tmax as int)),
{
    let tc: i32 = if t < tmin {
        tmin
    } else if t > tmax {
        tmax
    } else {
        t
    };
    let num: u64 = (tc - tmin) as u64;
    let den: u64 = (tmax - tmin) as u64;
    assert(num as int * UNIT <= 2_000_000 * 1_000_000) by (nonlinear_arith)
        requires
            0 <= num as int <= 2_000_000,
    ;
    let q: u64 = num * 1_000_000 / den;
    proof {
        lemma_div_pos_is_pos(num as int * UNIT, den as int);
        lemma_mul_inequality(num as int, den as int, UNIT as int);
        lemma_div_is_ordered(num as int * UNIT, den as int * UNIT, den as int);
        lemma_div_by_multiple(UNIT as int, den as int);
        assert(q as int == rescale(t as int, tmin as int, tmax as int));
    }
    ramp.interpolate(q as i32)
}

} // verus!
