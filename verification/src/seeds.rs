//! Seed placement on a Fermat spiral (Vogel's model): seed `n` sits at
//! distance `radius * sqrt(n) / sqrt(count)` from the center, at angle
//! `n * goldenAngle`, where the golden angle is `pi * (3 - sqrt(5))` radians.
//!
//! Coordinates are fixed-point integers (the engine uses 16 units per pixel).
//! Angles are carried in 65536ths of a turn, so the golden angle is the
//! constant `25033` (rounded `0.3819660112 * 65536`) and wrap-around is a
//! modulus. The trig unit is `4096` (`TRIG_ONE`); sine uses Bhaskara I's
//! rational approximation, which is exact at `0`, `1/4` and `1/2` turns and
//! never exceeds one in magnitude.

use vstd::prelude::*;

verus! {

/// Fixed-point one for the trigonometric scale.
pub const TRIG_ONE: i64 = 4096;

/// The golden angle in 65536ths of a turn: `round((3 - sqrt(5)) / 2 * 65536)`.
pub const GOLDEN_ANGLE_TURNS: u64 = 25033;

/// A seed point: current position and the immutable base position that
/// noise perturbs around. All coordinates in fixed-point canvas units.
#[derive(Clone, Copy, PartialEq, Eq, Structural, Debug)]
pub struct Seed {
    pub x: i64,
    pub y: i64,
    pub base_x: i64,
    pub base_y: i64,
}

/// The integer square root: the unique `r >= 0` with `r * r <= n < (r+1)*(r+1)`.
pub open spec fn sqrt_floor(n: int) -> int {
    choose|r: int| 0 <= r && #[trigger] (r * r) <= n < (r + 1) * (r + 1)
}

/// A witness pins `sqrt_floor` down: any `r` in the right bracket is it.
pub proof fn lemma_sqrt_floor_unique(n: int, r: int)
    requires
        0 <= r,
        r * r <= n < (r + 1) * (r + 1),
    ensures
        sqrt_floor(n) == r,
{
    assert(exists|q: int| 0 <= q && #[trigger] (q * q) <= n < (q + 1) * (q + 1)) by {
        assert(0 <= r && #[trigger] (r * r) <= n < (r + 1) * (r + 1));
    }
    let q = sqrt_floor(n);
    assert(0 <= q && q * q <= n < (q + 1) * (q + 1));
    assert(q == r) by (nonlinear_arith)
        requires
            0 <= r,
            0 <= q,
            r * r <= n < (r + 1) * (r + 1),
            q * q <= n < (q + 1) * (q + 1),
    ;
}

/// Binary-search integer square root.
pub fn isqrt(n: u64) -> (r: u64)
    ensures
        r * r <= n < (r + 1) * (r + 1),
        r == sqrt_floor(n as int),
{
    let mut lo: u64 = 0;
    let mut hi: u64 = 0x1_0000_0000;
    while hi - lo > 1
        invariant
            lo < hi <= 0x1_0000_0000,
            lo * lo <= n,
            (n as int) < (hi as int) * (hi as int),
        decreases hi - lo,
    {
        let mid: u64 = lo + (hi - lo) / 2;
        assert(mid * mid < 0x1_0000_0000_0000_0000) by (nonlinear_arith)
            requires
                mid < 0x1_0000_0000u64,
        ;
        if mid * mid <= n {
            lo = mid;
        } else {
            hi = mid;
        }
    }
    proof {
        assert((lo + 1) as int * ((lo + 1) as int) == (hi as int) * (hi as int));
        lemma_sqrt_floor_unique(n as int, lo as int);
    }
    lo
}

/// Bhaskara I's sine on the first half turn, scaled by `TRIG_ONE`:
/// `16 x (H - x) / (5 H^2 - 4 x (H - x))` with `H = 32768` (a half turn).
pub open spec fn sin_half_spec(x: int) -> int {
    (4096 * 16 * x * (32768 - x)) / (5 * 32768 * 32768 - 4 * x * (32768 - x))
}

/// Sine over a full turn of 65536 angle units, scaled by `TRIG_ONE`.
pub open spec fn sin_fp_spec(a: int) -> int {
    if a < 32768 {
        sin_half_spec(a)
    } else {
        -sin_half_spec(a - 32768)
    }
}

/// Cosine as sine a quarter turn ahead.
pub open spec fn cos_fp_spec(a: int) -> int {
    sin_fp_spec((a + 16384) % 65536)
}

/// Nonnegative half-turn sine. Bounded by one because
/// `16 x (H - x) <= 5 H^2 - 4 x (H - x)` reduces to `0 <= (H - 2x)^2`.
fn sin_half(x: u32) -> (r: u64)
    requires
        x < 32768,
    ensures
        r <= 4096,
        r == sin_half_spec(x as int),
{
    let xw: u64 = x as u64;
    assert(0 <= (xw as int) * (32768 - xw as int) <= 0x1000_0000) by (nonlinear_arith)
        requires
            0 <= xw < 32768,
    ;
    let prod: u64 = xw * (32768 - xw);
    let num: u64 = 65536 * prod;
    let den: u64 = 5 * 32768 * 32768 - 4 * prod;
    proof {
        assert(num == 4096 * 16 * (x as int) * (32768 - x as int) && den == 5 * 32768 * 32768 - 4
            * (x as int) * (32768 - x as int)) by (nonlinear_arith)
            requires
                xw == x as int,
                prod == (xw as int) * (32768 - xw as int),
                num == 65536 * (prod as int),
                den == 5 * 32768 * 32768 - 4 * (prod as int),
                0 <= prod <= 0x1000_0000,
                0 <= xw < 32768,
        ;
        assert(num <= 4096 * den) by (nonlinear_arith)
            requires
                num == 4096 * 16 * (x as int) * (32768 - x as int),
                den == 5 * 32768 * 32768 - 4 * (x as int) * (32768 - x as int),
                0 <= x < 32768,
        ;
    }
    assert(den > 0);
    assert(forall|a: int, d: int| 0 <= a && 0 < d && a <= 4096 * d ==> #[trigger] (a / d)
        <= 4096) by (nonlinear_arith);
    num / den
}

/// Sine of an angle in 65536ths of a turn, scaled by `TRIG_ONE`.
pub fn sin_fp(a: u32) -> (r: i64)
    requires
        a < 65536,
    ensures
        -4096 <= r <= 4096,
        r == sin_fp_spec(a as int),
{
    if a < 32768 {
        sin_half(a) as i64
    } else {
        -(sin_half(a - 32768) as i64)
    }
}

/// Cosine of an angle in 65536ths of a turn, scaled by `TRIG_ONE`.
pub fn cos_fp(a: u32) -> (r: i64)
    requires
        a < 65536,
    ensures
        -4096 <= r <= 4096,
        r == cos_fp_spec(a as int),
{
    sin_fp((a + 16384) % 65536)
}

/// Scales a nonnegative radius by a trig value in `[-TRIG_ONE, TRIG_ONE]`,
/// rounding the magnitude down; the result never exceeds the radius.
pub open spec fn scale_by_trig(r: int, c: int) -> int {
    if c >= 0 {
        (r * c) / 4096
    } else {
        -((r * -c) / 4096)
    }
}

/// `scale_by_trig` keeps the offset within the radius.
pub proof fn lemma_scale_by_trig_bound(r: int, c: int)
    requires
        0 <= r,
        -4096 <= c <= 4096,
    ensures
        -r <= scale_by_trig(r, c) <= r,
{
    assert(0 <= c ==> 0 <= r * c <= r * 4096) by (nonlinear_arith)
        requires
            0 <= r,
            c <= 4096,
    ;
    assert(c < 0 ==> 0 <= r * -c <= r * 4096) by (nonlinear_arith)
        requires
            0 <= r,
            -4096 <= c,
    ;
    assert(forall|m: int| 0 <= m <= r * 4096 ==> 0 <= #[trigger] (m / 4096)
        <= r) by (nonlinear_arith);
}

/// The position of spiral seed `n` out of `count`, around `(cx, cy)` within
/// `radius`: distance `radius * sqrt(n)/sqrt(count)` (computed with 12
/// fractional bits under the square roots), angle `n` golden angles.
pub open spec fn golden_seed_spec(n: int, count: int, cx: int, cy: int, radius: int) -> (
    int,
    int,
) {
    let sc = sqrt_floor(count * 0x100_0000);
    let sn = sqrt_floor(n * 0x100_0000);
    let r = (radius * sn) / sc;
    let theta = (n * 25033) % 65536;
    (cx + scale_by_trig(r, cos_fp_spec(theta)), cy + scale_by_trig(r, sin_fp_spec(theta)))
}

/// Scales a nonnegative distance by a signed trig factor.
fn apply_trig(r: u64, c: i64) -> (d: i64)
    requires
        r <= 0x10_0000,
        -4096 <= c <= 4096,
    ensures
        d == scale_by_trig(r as int, c as int),
        -(r as int) <= d <= r as int,
{
    proof {
        lemma_scale_by_trig_bound(r as int, c as int);
        assert(0 <= c ==> r * c <= 0x10_0000 * 4096) by (nonlinear_arith)
            requires
                r <= 0x10_0000,
                c <= 4096,
        ;
        assert(c < 0 ==> r * -c <= 0x10_0000 * 4096) by (nonlinear_arith)
            requires
                r <= 0x10_0000,
                -4096 <= c,
        ;
    }
    if c >= 0 {
        ((r * (c as u64)) / 4096) as i64
    } else {
        -(((r * ((-c) as u64)) / 4096) as i64)
    }
}

/// Generates `count` seeds on the golden-angle spiral around `(center_x,
/// center_y)`, all within `radius` of the center on each axis, base position
/// equal to the initial position. Deterministic: the result is a function of
/// the arguments alone. `count = 0` gives the empty sequence.
pub fn generate_golden_seeds(count: usize, center_x: i64, center_y: i64, radius: i64) -> (
    seeds: Vec<Seed>)
    requires
        count <= 0x10000,
        0 <= radius <= 0x10_0000,
        radius <= center_x <= 0x10_0000,
        radius <= center_y <= 0x10_0000,
    ensures
        seeds@.len() == count,
        forall|n: int|
            0 <= n < count ==> {
                let (px, py) = golden_seed_spec(
                    n,
                    count as int,
                    center_x as int,
                    center_y as int,
                    radius as int,
                );
                &&& (#[trigger] seeds@[n]).x == px
                &&& seeds@[n].y == py
                &&& seeds@[n].base_x == px
                &&& seeds@[n].base_y == py
            },
        forall|n: int|
            0 <= n < count ==> {
                &&& center_x - radius <= (#[trigger] seeds@[n]).x <= center_x + radius
                &&& center_y - radius <= seeds@[n].y <= center_y + radius
                &&& seeds@[n].base_x == seeds@[n].x
                &&& seeds@[n].base_y == seeds@[n].y
            },
{
    let mut seeds: Vec<Seed> = Vec::new();
    if count == 0 {
        return seeds;
    }
    let sc: u64 = isqrt((count as u64) * 0x100_0000);
    assert(sc > 0) by {
        assert(sc * sc <= (count as u64) * 0x100_0000);
        assert((sc as int + 1) * (sc as int + 1) > (count as int) * 0x100_0000);
        assert(sc == 0 ==> (sc as int + 1) * (sc as int + 1) == 1);
        assert((count as int) * 0x100_0000 >= 0x100_0000) by (nonlinear_arith)
            requires
                count >= 1,
        ;
    }
    let mut n: usize = 0;
    while n < count
        invariant
            n <= count,
            count <= 0x10000,
            0 <= radius <= 0x10_0000,
            radius <= center_x <= 0x10_0000,
            radius <= center_y <= 0x10_0000,
            sc > 0,
            sc == sqrt_floor(count as int * 0x100_0000),
            (sc as int) * (sc as int) <= (count as int) * 0x100_0000,
            (count as int) * 0x100_0000 < (sc as int + 1) * (sc as int + 1),
            seeds@.len() == n,
            forall|k: int|
                0 <= k < n ==> {
                    let (px, py) = golden_seed_spec(
                        k,
                        count as int,
                        center_x as int,
                        center_y as int,
                        radius as int,
                    );
                    &&& (#[trigger] seeds@[k]).x == px
                    &&& seeds@[k].y == py
                    &&& seeds@[k].base_x == px
                    &&& seeds@[k].base_y == py
                },
            forall|k: int|
                0 <= k < n ==> {
                    &&& center_x - radius <= (#[trigger] seeds@[k]).x <= center_x + radius
                    &&& center_y - radius <= seeds@[k].y <= center_y + radius
                    &&& seeds@[k].base_x == seeds@[k].x
                    &&& seeds@[k].base_y == seeds@[k].y
                },
        decreases count - n,
    {
        let sn: u64 = isqrt((n as u64) * 0x100_0000);
        proof {
            assert(sn * sn <= (n as u64) * 0x100_0000);
            assert((n as int) * 0x100_0000 < (count as int) * 0x100_0000) by (nonlinear_arith)
                requires
                    n < count,
            ;
            assert(sn <= sc) by (nonlinear_arith)
                requires
                    (sn as int) * (sn as int) <= (n as int) * 0x100_0000,
                    (n as int) * 0x100_0000 < (count as int) * 0x100_0000,
                    (count as int) * 0x100_0000 < (sc as int + 1) * (sc as int + 1),
                    sn >= 0,
                    sc >= 0,
            ;
            assert((radius as u64) * sn <= (radius as u64) * sc) by (nonlinear_arith)
                requires
                    sn <= sc,
                    radius >= 0,
            ;
            assert(sc <= 0x10_0000u64) by (nonlinear_arith)
                requires
                    (sc as int) * (sc as int) <= (count as int) * 0x100_0000,
                    count <= 0x10000,
                    sc >= 0,
            ;
            assert((radius as u64) * sc <= 0x10_0000u64 * 0x10_0000) by (nonlinear_arith)
                requires
                    radius <= 0x10_0000,
                    sc <= 0x10_0000u64,
                    radius >= 0,
            ;
            assert(forall|a: u64, d: u64|
                0 < d && a <= (radius as u64) * d ==> #[trigger] (a / d) <= radius
                    as u64) by (nonlinear_arith)
                requires
                    radius >= 0,
            ;
        }
        let r: u64 = ((radius as u64) * sn) / sc;
        let theta: u32 = (((n as u64) * GOLDEN_ANGLE_TURNS) % 65536) as u32;
        let dx = apply_trig(r, cos_fp(theta));
        let dy = apply_trig(r, sin_fp(theta));
        let x = center_x + dx;
        let y = center_y + dy;
        seeds.push(Seed { x, y, base_x: x, base_y: y });
        n = n + 1;
    }
    seeds
}

/// Seed placement is deterministic: the contract of `generate_golden_seeds`
/// pins every seed to `golden_seed_spec`, so two sequences that both satisfy
/// it are equal element by element.
pub proof fn lemma_generate_deterministic(
    a: Seq<Seed>,
    b: Seq<Seed>,
    count: int,
    cx: int,
    cy: int,
    radius: int,
)
    requires
        a.len() == count,
        b.len() == count,
        forall|n: int|
            0 <= n < count ==> {
                let (px, py) = golden_seed_spec(n, count, cx, cy, radius);
                &&& (#[trigger] a[n]).x == px
                &&& a[n].y == py
                &&& a[n].base_x == px
                &&& a[n].base_y == py
            },
        forall|n: int|
            0 <= n < count ==> {
                let (px, py) = golden_seed_spec(n, count, cx, cy, radius);
                &&& (#[trigger] b[n]).x == px
                &&& b[n].y == py
                &&& b[n].base_x == px
                &&& b[n].base_y == py
            },
    ensures
        a == b,
{
    assert forall|n: int| 0 <= n < count implies a[n] == b[n] by {
        assert(a[n].x == b[n].x && a[n].y == b[n].y && a[n].base_x == b[n].base_x && a[n].base_y
            == b[n].base_y);
    }
    assert(a =~= b);
}

} // verus!
