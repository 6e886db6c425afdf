//! The animation engine: owns the seeds, the noise field, the current
//! edge set and the accumulated time; advances time and re-perturbs and
//! re-triangulates on every tick; describes a frame as an ordered list of
//! draw commands on request.
//!
//! Units: canvas coordinates are fixed point with 16 units per pixel;
//! widths, radii and alpha values in draw commands are in thousandths;
//! time is accumulated in microseconds and scaled by `1/20000000` (the
//! deliberately slow drift, 0.00005 per millisecond) into noise-domain
//! fixed point. The accumulator wraps after roughly fifteen days of
//! animation so that every intermediate product stays within machine
//! integers.

use crate::color::interpolate_color;
use crate::color::interpolate_color_spec;
use crate::delaunay::compute_delaunay_edges;
use crate::delaunay::delaunay_edges_spec;
use crate::delaunay::edge_wf;
use crate::delaunay::Edge;
use crate::noise::noise2d_spec;
use crate::noise::perm_spec;
use crate::noise::SimplexNoise;
use crate::seeds::generate_golden_seeds;
use crate::seeds::golden_seed_spec;
use crate::seeds::sqrt_floor;
use crate::seeds::Seed;
use vstd::arithmetic::div_mod::lemma_add_mod_noop;
use vstd::arithmetic::div_mod::lemma_small_mod;
use vstd::prelude::*;

verus! {

/// The time accumulator wraps at this many microseconds (about fifteen
/// days); below it the scaled animation time stays under `2^28`.
pub const TIME_WRAP: u64 = 1_310_720_000_000;

/// The fixed noise seed: default behavior is reproducible across engines.
pub const NOISE_SEED: u32 = 42;

/// One drawing instruction for the external sink, emitted in order:
/// a clear, then one stroked line per edge, then one filled circle per
/// seed. Coordinates in canvas units (16 per pixel); `alpha_milli`,
/// `width_milli` and `radius_milli` in thousandths.
#[derive(Clone, Copy, PartialEq, Eq, Structural, Debug)]
pub enum DrawCmd {
    Clear { width: i64, height: i64 },
    StrokeLine {
        x1: i64,
        y1: i64,
        x2: i64,
        y2: i64,
        red: u8,
        green: u8,
        blue: u8,
        alpha_milli: u32,
        width_milli: u32,
    },
    FillCircle {
        x: i64,
        y: i64,
        radius_milli: u32,
        red: u8,
        green: u8,
        blue: u8,
        alpha_milli: u32,
    },
}

/// The accumulated animation time in noise-domain fixed point:
/// `microseconds * 4096 / 20000000` (that is, `0.00005` per millisecond).
pub open spec fn time_fp_of(accum: int) -> int {
    accum * 4096 / 20_000_000
}

/// A base coordinate scaled into the noise domain: `pixels * 0.003`,
/// with 16 units per pixel and 4096 as the noise-domain one.
pub open spec fn noise_coord(base: int) -> int {
    (base * 12288) / 16000
}

/// A sampled noise value scaled to a position offset of up to eight
/// pixels (128 units), magnitude rounded toward zero.
pub open spec fn noise_offset(n: int) -> int {
    if n >= 0 {
        (n * 128) / 4096
    } else {
        -((-n * 128) / 4096)
    }
}

/// Where a seed with base `base_x` sits on the x axis at time `tfp`.
pub open spec fn perturbed_x(perm: Seq<u8>, base_x: int, tfp: int) -> int {
    base_x + noise_offset(noise2d_spec(perm, noise_coord(base_x), tfp))
}

/// Where a seed with base `base_y` sits on the y axis at time `tfp`;
/// the offset of 100 noise-domain units decorrelates the two axes.
pub open spec fn perturbed_y(perm: Seq<u8>, base_y: int, tfp: int) -> int {
    base_y + noise_offset(noise2d_spec(perm, noise_coord(base_y), tfp + 409600))
}

/// Truncating halving, as the midpoint of two fixed-point coordinates.
pub open spec fn half_spec(v: int) -> int {
    if v >= 0 {
        v / 2
    } else {
        -((-v) / 2)
    }
}

/// The clamped distance ratio in thousandths: the distance from the
/// center over the configured radius, at most one.
pub open spec fn ratio_of(dx: int, dy: int, radius: int) -> int {
    let dist = sqrt_floor(dx * dx + dy * dy);
    if (dist * 1000) / radius > 1000 {
        1000
    } else {
        (dist * 1000) / radius
    }
}

/// The color triple a ratio maps to, as bytes.
pub open spec fn rgb_of(ratio: int) -> (u8, u8, u8) {
    let c = interpolate_color_spec(ratio);
    (c.0 as u8, c.1 as u8, c.2 as u8)
}

/// The stroke command for one edge: colored and weighted by the
/// midpoint's distance ratio to the center.
pub open spec fn edge_cmd(e: Edge, cx: int, cy: int, radius: int) -> DrawCmd {
    let r = ratio_of(half_spec(e.x1 + e.x2) - cx, half_spec(e.y1 + e.y2) - cy, radius);
    DrawCmd::StrokeLine {
        x1: e.x1,
        y1: e.y1,
        x2: e.x2,
        y2: e.y2,
        red: rgb_of(r).0,
        green: rgb_of(r).1,
        blue: rgb_of(r).2,
        alpha_milli: (150 + ((1000 - r) * 250) / 1000) as u32,
        width_milli: (500 + ((1000 - r) * 800) / 1000) as u32,
    }
}

/// The fill command for one seed node: colored and sized by its own
/// distance ratio to the center.
pub open spec fn node_cmd(s: Seed, cx: int, cy: int, radius: int) -> DrawCmd {
    let r = ratio_of(s.x - cx, s.y - cy, radius);
    DrawCmd::FillCircle {
        x: s.x,
        y: s.y,
        radius_milli: (1500 + ((1000 - r) * 1500) / 1000) as u32,
        red: rgb_of(r).0,
        green: rgb_of(r).1,
        blue: rgb_of(r).2,
        alpha_milli: (400 + ((1000 - r) * 400) / 1000) as u32,
    }
}

/// The whole frame an engine state describes: a clear, the edge strokes
/// in order, then the seed nodes in order.
pub open spec fn render_spec(h: VoronoiHero) -> Seq<DrawCmd> {
    seq![DrawCmd::Clear { width: h.width, height: h.height }] + h.edges@.map(
        |k: int, e: Edge| edge_cmd(e, h.center_x as int, h.center_y as int, h.radius as int),
    ) + h.seeds@.map(
        |k: int, s: Seed| node_cmd(s, h.center_x as int, h.center_y as int, h.radius as int),
    )
}

/// The tessellation engine. All state lives here: the host owns exactly
/// one instance and drives it with `tick`, `render` and `resize`.
pub struct VoronoiHero {
    pub seeds: Vec<Seed>,
    pub edges: Vec<Edge>,
    pub noise: SimplexNoise,
    pub width: i64,
    pub height: i64,
    pub center_x: i64,
    pub center_y: i64,
    pub radius: i64,
    pub time_accum: u64,
}

impl VoronoiHero {
    /// The engine's invariant: geometry within the fixed-point budget,
    /// every seed's base inside the configured disc's bounding box and
    /// its position within the eight-pixel noise excursion of its base,
    /// every edge joining two distinct current seeds, and the time
    /// accumulator below its wrap.
    pub open spec fn wf(&self) -> bool {
        &&& self.noise.wf()
        &&& 16 <= self.width <= 0x1_0000
        &&& 16 <= self.height <= 0x1_0000
        &&& 0 < self.radius <= self.center_x <= 0x8000
        &&& self.radius <= self.center_y <= 0x8000
        &&& self.seeds@.len() <= 0x10000
        &&& forall|n: int|
            0 <= n < self.seeds@.len() ==> {
                let s = #[trigger] self.seeds@[n];
                &&& self.center_x - self.radius <= s.base_x <= self.center_x + self.radius
                &&& self.center_y - self.radius <= s.base_y <= self.center_y + self.radius
                &&& s.base_x - 128 <= s.x <= s.base_x + 128
                &&& s.base_y - 128 <= s.y <= s.base_y + 128
            }
        &&& forall|k: int| 0 <= k < self.edges@.len() ==> edge_wf(#[trigger] self.edges@[k], self.seeds@)
        &&& self.time_accum < TIME_WRAP
    }

    /// Builds an engine for a `width` by `height` pixel canvas with
    /// `seed_count` seeds: the center is the canvas middle, the spiral
    /// radius 45 percent of the smaller dimension, the noise field seeded
    /// with the fixed constant, time zero, seeds on the golden spiral and
    /// the edge set their triangulation (empty below three seeds).
    pub fn new(width: u32, height: u32, seed_count: usize) -> (h: VoronoiHero)
        requires
            1 <= width <= 4096,
            1 <= height <= 4096,
            seed_count <= 0x10000,
        ensures
            h.wf(),
            h.width == width * 16,
            h.height == height * 16,
            h.center_x == width * 8,
            h.center_y == height * 8,
            h.radius == (if width <= height {
                (width * 144) / 20
            } else {
                (height * 144) / 20
            }),
            h.time_accum == 0,
            h.noise.perm@ == perm_spec(NOISE_SEED as int),
            h.seeds@.len() == seed_count,
            forall|n: int|
                0 <= n < seed_count ==> {
                    let (px, py) = golden_seed_spec(
                        n,
                        seed_count as int,
                        h.center_x as int,
                        h.center_y as int,
                        h.radius as int,
                    );
                    &&& (#[trigger] h.seeds@[n]).x == px
                    &&& h.seeds@[n].y == py
                    &&& h.seeds@[n].base_x == px
                    &&& h.seeds@[n].base_y == py
                },
            seed_count < 3 ==> h.edges@.len() == 0,
            h.edges@ == delaunay_edges_spec(h.seeds@, h.width as int, h.height as int),
            forall|k: int| 0 <= k < h.edges@.len() ==> edge_wf(#[trigger] h.edges@[k], h.seeds@),
            forall|k: int, l: int|
                0 <= k < l < h.edges@.len() ==> !((#[trigger] h.edges@[k]).a == (
                #[trigger] h.edges@[l]).a && h.edges@[k].b == h.edges@[l].b),
    {
        let w_units: i64 = (width as i64) * 16;
        let h_units: i64 = (height as i64) * 16;
        let cx: i64 = (width as i64) * 8;
        let cy: i64 = (height as i64) * 8;
        let min_px: i64 = if width <= height {
            width as i64
        } else {
            height as i64
        };
        let radius: i64 = ((min_px as u64 * 144) / 20) as i64;
        proof {
            assert(1 * 144 / 20 <= (min_px as int) * 144 / 20 <= 4096 * 144 / 20) by (nonlinear_arith)
                requires
                    1 <= min_px <= 4096,
            ;
            assert((min_px as int) * 144 / 20 <= (min_px as int) * 8) by (nonlinear_arith)
                requires
                    1 <= min_px,
            ;
        }
        let seeds = generate_golden_seeds(seed_count, cx, cy, radius);
        let edges = compute_delaunay_edges(&seeds, w_units, h_units);
        let noise = SimplexNoise::new(NOISE_SEED);
        VoronoiHero {
            seeds,
            edges,
            noise,
            width: w_units,
            height: h_units,
            center_x: cx,
            center_y: cy,
            radius,
            time_accum: 0,
        }
    }

    /// Read-only accessor for the accumulated animation time, in
    /// noise-domain fixed point (4096 is one), for host-side
    /// synchronization.
    pub fn get_time(&self) -> (t: u64)
        requires
            self.wf(),
        ensures
            t == time_fp_of(self.time_accum as int),
    {
        (self.time_accum * 4096) / 20_000_000
    }

    /// Advances the animation by `dt` microseconds: accumulates time
    /// (wrapping at `TIME_WRAP`), recomputes every seed's position as its
    /// base plus the noise-driven offset at the new time, and rebuilds
    /// the triangulation over the new positions. Infallible; bases and
    /// geometry are untouched.
    #[verifier::rlimit(100)]
    pub fn tick(&mut self, dt: u64)
        requires
            old(self).wf(),
            dt <= 1_000_000_000_000,
        ensures
            final (self).wf(),
            final (self).time_accum == (old(self).time_accum + dt) % (TIME_WRAP as int),
            final (self).seeds@.len() == old(self).seeds@.len(),
            forall|n: int|
                0 <= n < old(self).seeds@.len() ==> {
                    let s = #[trigger] final (self).seeds@[n];
                    let o = old(self).seeds@[n];
                    let tfp = time_fp_of(final (self).time_accum as int);
                    &&& s.base_x == o.base_x
                    &&& s.base_y == o.base_y
                    &&& s.x == perturbed_x(old(self).noise.perm@, o.base_x as int, tfp)
                    &&& s.y == perturbed_y(old(self).noise.perm@, o.base_y as int, tfp)
                },
            final (self).noise.perm@ == old(self).noise.perm@,
            final (self).width == old(self).width,
            final (self).height == old(self).height,
            final (self).center_x == old(self).center_x,
            final (self).center_y == old(self).center_y,
            final (self).radius == old(self).radius,
            old(self).seeds@.len() < 3 ==> final (self).edges@.len() == 0,
            final (self).edges@ == delaunay_edges_spec(
                final (self).seeds@,
                final (self).width as int,
                final (self).height as int,
            ),
            forall|k: int|
                0 <= k < final (self).edges@.len() ==> edge_wf(
                    #[trigger] final (self).edges@[k],
                    final (self).seeds@,
                ),
            forall|k: int, l: int|
                0 <= k < l < final (self).edges@.len() ==> !((#[trigger] final (
                self).edges@[k]).a == (#[trigger] final (self).edges@[l]).a && final (
                self).edges@[k].b == final (self).edges@[l].b),
    {
        self.time_accum = (self.time_accum + dt) % TIME_WRAP;
        let tfp: u64 = (self.time_accum * 4096) / 20_000_000;
        let mut si: usize = 0;
        while si < self.seeds.len()
            invariant
                si <= self.seeds@.len(),
                old(self).wf(),
                self.noise.wf(),
                self.noise.perm@ == old(self).noise.perm@,
                self.center_x == old(self).center_x,
                self.center_y == old(self).center_y,
                self.radius == old(self).radius,
                self.width == old(self).width,
                self.height == old(self).height,
                self.time_accum == (old(self).time_accum + dt) % (TIME_WRAP as int),
                self.time_accum < TIME_WRAP,
                tfp == time_fp_of(self.time_accum as int),
                tfp < 0x1000_0000,
                self.seeds@.len() == old(self).seeds@.len(),
                forall|n: int|
                    si <= n < old(self).seeds@.len() ==> #[trigger] self.seeds@[n] == old(
                    self).seeds@[n],
                forall|n: int|
                    0 <= n < si ==> {
                        let s = #[trigger] self.seeds@[n];
                        let o = old(self).seeds@[n];
                        &&& s.base_x == o.base_x
                        &&& s.base_y == o.base_y
                        &&& s.base_x - 128 <= s.x <= s.base_x + 128
                        &&& s.base_y - 128 <= s.y <= s.base_y + 128
                        &&& s.x == perturbed_x(
                            old(self).noise.perm@,
                            o.base_x as int,
                            tfp as int,
                        )
                        &&& s.y == perturbed_y(old(self).noise.perm@, o.base_y as int, tfp as int)
                    },
            decreases self.seeds@.len() - si,
        {
            let s = self.seeds[si];
            let bx: i64 = s.base_x;
            let by: i64 = s.base_y;
            let nx_in: u64 = ((bx as u64) * 12288) / 16000;
            let ny_in: u64 = ((by as u64) * 12288) / 16000;
            let n1 = self.noise.noise2d(nx_in, tfp);
            let n2 = self.noise.noise2d(ny_in, tfp + 409600);
            let ox = noise_off(n1);
            let oy = noise_off(n2);
            self.seeds[si] = Seed { x: bx + ox, y: by + oy, base_x: bx, base_y: by };
            si = si + 1;
        }
        let new_edges = compute_delaunay_edges(&self.seeds, self.width, self.height);
        self.edges = new_edges;
    }

    /// Describes the current frame as draw commands, in emission order:
    /// a clear, the edges, then the seed nodes. Reads the engine only.
    pub fn render(&self) -> (cmds: Vec<DrawCmd>)
        requires
            self.wf(),
        ensures
            cmds@ == render_spec(*self),
    {
        let mut cmds: Vec<DrawCmd> = Vec::new();
        cmds.push(DrawCmd::Clear { width: self.width, height: self.height });
        let mut k: usize = 0;
        while k < self.edges.len()
            invariant
                k <= self.edges@.len(),
                self.wf(),
                cmds@.len() == 1 + k,
                cmds@[0] == (DrawCmd::Clear { width: self.width, height: self.height }),
                forall|m: int|
                    0 <= m < k ==> #[trigger] cmds@[1 + m] == edge_cmd(
                        self.edges@[m],
                        self.center_x as int,
                        self.center_y as int,
                        self.radius as int,
                    ),
            decreases self.edges@.len() - k,
        {
            let e = self.edges[k];
            proof {
                assert(edge_wf(self.edges@[k as int], self.seeds@));
            }
            let mx = half(e.x1 + e.x2);
            let my = half(e.y1 + e.y2);
            let r = ratio_milli(mx - self.center_x, my - self.center_y, self.radius);
            let c = interpolate_color(r);
            let alpha: u32 = 150 + ((1000 - r) * 250) / 1000;
            let wm: u32 = 500 + ((1000 - r) * 800) / 1000;
            cmds.push(
                DrawCmd::StrokeLine {
                    x1: e.x1,
                    y1: e.y1,
                    x2: e.x2,
                    y2: e.y2,
                    red: c.0,
                    green: c.1,
                    blue: c.2,
                    alpha_milli: alpha,
                    width_milli: wm,
                },
            );
            k = k + 1;
        }
        let ghost ne = self.edges@.len() as int;
        let mut n: usize = 0;
        while n < self.seeds.len()
            invariant
                n <= self.seeds@.len(),
                self.wf(),
                ne == self.edges@.len(),
                cmds@.len() == 1 + ne + n,
                cmds@[0] == (DrawCmd::Clear { width: self.width, height: self.height }),
                forall|m: int|
                    0 <= m < ne ==> #[trigger] cmds@[1 + m] == edge_cmd(
                        self.edges@[m],
                        self.center_x as int,
                        self.center_y as int,
                        self.radius as int,
                    ),
                forall|m: int|
                    0 <= m < n ==> #[trigger] cmds@[1 + ne + m] == node_cmd(
                        self.seeds@[m],
                        self.center_x as int,
                        self.center_y as int,
                        self.radius as int,
                    ),
            decreases self.seeds@.len() - n,
        {
            let s = self.seeds[n];
            let r = ratio_milli(s.x - self.center_x, s.y - self.center_y, self.radius);
            let c = interpolate_color(r);
            let alpha: u32 = 400 + ((1000 - r) * 400) / 1000;
            let rm: u32 = 1500 + ((1000 - r) * 1500) / 1000;
            cmds.push(
                DrawCmd::FillCircle {
                    x: s.x,
                    y: s.y,
                    radius_milli: rm,
                    red: c.0,
                    green: c.1,
                    blue: c.2,
                    alpha_milli: alpha,
                },
            );
            n = n + 1;
        }
        proof {
            let spec = render_spec(*self);
            assert(cmds@.len() == spec.len());
            assert forall|i: int| 0 <= i < cmds@.len() implies cmds@[i] == spec[i] by {
                if i == 0 {
                } else if i <= ne {
                    assert(cmds@[1 + (i - 1)] == edge_cmd(
                        self.edges@[i - 1],
                        self.center_x as int,
                        self.center_y as int,
                        self.radius as int,
                    ));
                } else {
                    assert(cmds@[1 + ne + (i - 1 - ne)] == node_cmd(
                        self.seeds@[i - 1 - ne],
                        self.center_x as int,
                        self.center_y as int,
                        self.radius as int,
                    ));
                }
            }
            assert(cmds@ =~= spec);
        }
        cmds
    }

    /// Replaces the canvas geometry and the seed set wholesale: new
    /// center and radius from the new dimensions, fresh spiral seeds,
    /// fresh triangulation. The noise field and the accumulated time are
    /// kept.
    pub fn resize(&mut self, width: u32, height: u32, seed_count: usize)
        requires
            old(self).wf(),
            1 <= width <= 4096,
            1 <= height <= 4096,
            seed_count <= 0x10000,
        ensures
            final (self).wf(),
            final (self).width == width * 16,
            final (self).height == height * 16,
            final (self).center_x == width * 8,
            final (self).center_y == height * 8,
            final (self).radius == (if width <= height {
                (width * 144) / 20
            } else {
                (height * 144) / 20
            }),
            final (self).time_accum == old(self).time_accum,
            final (self).noise.perm@ == old(self).noise.perm@,
            final (self).seeds@.len() == seed_count,
            forall|n: int|
                0 <= n < seed_count ==> {
                    let (px, py) = golden_seed_spec(
                        n,
                        seed_count as int,
                        final (self).center_x as int,
                        final (self).center_y as int,
                        final (self).radius as int,
                    );
                    &&& (#[trigger] final (self).seeds@[n]).x == px
                    &&& final (self).seeds@[n].y == py
                    &&& final (self).seeds@[n].base_x == px
                    &&& final (self).seeds@[n].base_y == py
                },
            seed_count < 3 ==> final (self).edges@.len() == 0,
            final (self).edges@ == delaunay_edges_spec(
                final (self).seeds@,
                final (self).width as int,
                final (self).height as int,
            ),
            forall|k: int|
                0 <= k < final (self).edges@.len() ==> edge_wf(
                    #[trigger] final (self).edges@[k],
                    final (self).seeds@,
                ),
    {
        let w_units: i64 = (width as i64) * 16;
        let h_units: i64 = (height as i64) * 16;
        let cx: i64 = (width as i64) * 8;
        let cy: i64 = (height as i64) * 8;
        let min_px: i64 = if width <= height {
            width as i64
        } else {
            height as i64
        };
        let radius: i64 = ((min_px as u64 * 144) / 20) as i64;
        proof {
            assert(1 * 144 / 20 <= (min_px as int) * 144 / 20 <= 4096 * 144 / 20) by (nonlinear_arith)
                requires
                    1 <= min_px <= 4096,
            ;
            assert((min_px as int) * 144 / 20 <= (min_px as int) * 8) by (nonlinear_arith)
                requires
                    1 <= min_px,
            ;
        }
        let seeds = generate_golden_seeds(seed_count, cx, cy, radius);
        let edges = compute_delaunay_edges(&seeds, w_units, h_units);
        self.width = w_units;
        self.height = h_units;
        self.center_x = cx;
        self.center_y = cy;
        self.radius = radius;
        self.seeds = seeds;
        self.edges = edges;
    }
}

/// The noise offset for one axis, executable form of `noise_offset`.
fn noise_off(n: i64) -> (r: i64)
    requires
        -4096 <= n <= 4096,
    ensures
        r == noise_offset(n as int),
        -128 <= r <= 128,
{
    proof {
        assert((n >= 0 ==> 0 <= n * 128 <= 4096 * 128) && (n < 0 ==> 0 <= -n * 128 <= 4096
            * 128)) by (nonlinear_arith)
            requires
                -4096 <= n <= 4096,
        ;
    }
    if n >= 0 {
        (((n as u64) * 128) / 4096) as i64
    } else {
        -(((((-n) as u64) * 128) / 4096) as i64)
    }
}

/// Truncating halving, executable form of `half_spec`.
fn half(v: i64) -> (r: i64)
    requires
        -0x10_0000 <= v <= 0x10_0000,
    ensures
        r == half_spec(v as int),
        -0x8_0000 <= r <= 0x8_0000,
{
    if v >= 0 {
        ((v as u64) / 2) as i64
    } else {
        -(((-v) as u64 / 2) as i64)
    }
}

/// The clamped distance ratio in thousandths, executable form of
/// `ratio_of`.
fn ratio_milli(dx: i64, dy: i64, radius: i64) -> (r: u32)
    requires
        -0x4_0000 <= dx <= 0x4_0000,
        -0x4_0000 <= dy <= 0x4_0000,
        0 < radius <= 0x8000,
    ensures
        r == ratio_of(dx as int, dy as int, radius as int),
        r <= 1000,
{
    proof {
        assert(0 <= dx * dx <= 0x4_0000 * 0x4_0000 && 0 <= dy * dy <= 0x4_0000
            * 0x4_0000) by (nonlinear_arith)
            requires
                -0x4_0000 <= dx <= 0x4_0000,
                -0x4_0000 <= dy <= 0x4_0000,
        ;
    }
    let d2: u64 = ((dx * dx) as u64) + ((dy * dy) as u64);
    let dist: u64 = crate::seeds::isqrt(d2);
    proof {
        assert(dist * dist <= d2);
        assert(dist <= 0x8_0000) by (nonlinear_arith)
            requires
                (dist as int) * (dist as int) <= 2 * 0x4_0000 * 0x4_0000,
                dist >= 0,
        ;
    }
    let q: u64 = (dist * 1000) / (radius as u64);
    if q > 1000 {
        1000
    } else {
        q as u32
    }
}

/// Ticking twice accumulates time exactly as one combined tick would:
/// `tick(d1)` then `tick(d2)` leaves the same accumulator as `tick(d1 +
/// d2)`, modulo the wrap.
pub proof fn lemma_tick_time_additive(t: int, d1: int, d2: int)
    requires
        0 <= t,
        0 <= d1,
        0 <= d2 < TIME_WRAP,
    ensures
        ((t + d1) % (TIME_WRAP as int) + d2) % (TIME_WRAP as int) == (t + d1 + d2) % (
        TIME_WRAP as int),
{
    let w = TIME_WRAP as int;
    lemma_small_mod(d2 as nat, TIME_WRAP as nat);
    lemma_add_mod_noop(t + d1, d2, w);
}

/// Determinism, end to end: two engines whose noise tables, seed
/// sequences, geometry and time agree, and whose edge sets are the
/// triangulation of their seeds (as `new`, `tick` and `resize` ensure),
/// have equal edge sets, equal clocks, and describe the identical
/// command sequence. With `tick`'s contract, which pins the new time and
/// every new position as functions of the old state and `dt` alone,
/// replaying one sequence of deltas on two identically built engines
/// keeps them equal at every step.
pub proof fn lemma_engine_deterministic(a: VoronoiHero, b: VoronoiHero)
    requires
        a.noise.perm@ == b.noise.perm@,
        a.seeds@ == b.seeds@,
        a.edges@ == delaunay_edges_spec(a.seeds@, a.width as int, a.height as int),
        b.edges@ == delaunay_edges_spec(b.seeds@, b.width as int, b.height as int),
        a.width == b.width,
        a.height == b.height,
        a.center_x == b.center_x,
        a.center_y == b.center_y,
        a.radius == b.radius,
        a.time_accum == b.time_accum,
    ensures
        a.edges@ == b.edges@,
        time_fp_of(a.time_accum as int) == time_fp_of(b.time_accum as int),
        render_spec(a) == render_spec(b),
{
    assert(render_spec(a) =~= render_spec(b));
}

} // verus!
