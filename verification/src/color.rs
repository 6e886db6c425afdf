//! Distance-to-color mapping: a two-segment linear gradient from bright gold
//! `(255, 215, 0)` through gold `(212, 165, 116)` to bronze `(205, 127, 50)`.
//!
//! The distance ratio is carried in thousandths: `0` is the center of the
//! gradient's domain, `1000` its far end. Each channel interpolates
//! independently by `round(a + (b - a) * t)` with `t` in thousandths.

use vstd::prelude::*;

verus! {

/// Ratio scale: `1000` stands for a ratio of `1.0`.
pub const RATIO_ONE: u32 = 1000;

/// One channel of the gradient: `round(a + (b - a) * (t / 1000))`,
/// written over integers (the numerator is always nonnegative, so floor
/// division after adding half the denominator rounds to nearest,
/// half away from zero).
pub open spec fn lerp_channel_spec(a: int, b: int, t: int) -> int {
    (a * 1000 + (b - a) * t + 500) / 1000
}

/// The full gradient. `ratio` in `[0, 1000]`: below `500` blend bright gold
/// toward gold with parameter `t = ratio * 2`; from `500` on blend gold
/// toward bronze with parameter `t = (ratio - 500) * 2`.
pub open spec fn interpolate_color_spec(ratio: int) -> (int, int, int) {
    if ratio < 500 {
        let t = ratio * 2;
        (
            lerp_channel_spec(255, 212, t),
            lerp_channel_spec(215, 165, t),
            lerp_channel_spec(0, 116, t),
        )
    } else {
        let t = (ratio - 500) * 2;
        (
            lerp_channel_spec(212, 205, t),
            lerp_channel_spec(165, 127, t),
            lerp_channel_spec(116, 50, t),
        )
    }
}

/// Linear interpolation of one byte channel, rounding to nearest.
pub fn lerp_u8(a: u8, b: u8, t: u32) -> (r: u8)
    requires
        t <= 1000,
    ensures
        r == lerp_channel_spec(a as int, b as int, t as int),
        (a <= b ==> a <= r <= b) && (b <= a ==> b <= r <= a),
{
    assert((a as int) * 1000 + ((b as int) - (a as int)) * (t as int) + 500 >= 500
        && (a as int) * 1000 + ((b as int) - (a as int)) * (t as int) <= 255 * 1000)
        by (nonlinear_arith)
        requires
            0 <= a <= 255,
            0 <= b <= 255,
            0 <= t <= 1000,
    ;
    let num: i64 = (a as i64) * 1000 + ((b as i64) - (a as i64)) * (t as i64) + 500;
    let q: u64 = (num as u64) / 1000;
    proof {
        let aa = a as int;
        let bb = b as int;
        let tt = t as int;
        assert(aa <= bb ==> aa * 1000 + 500 <= aa * 1000 + (bb - aa) * tt + 500 <= bb * 1000
            + 500) by (nonlinear_arith)
            requires
                0 <= tt <= 1000,
        ;
        assert(bb <= aa ==> bb * 1000 + 500 <= aa * 1000 + (bb - aa) * tt + 500 <= aa * 1000
            + 500) by (nonlinear_arith)
            requires
                0 <= tt <= 1000,
        ;
        let n = aa * 1000 + (bb - aa) * tt + 500;
        assert(aa * 1000 <= n - 500 <= bb * 1000 ==> aa <= n / 1000 <= bb) by (nonlinear_arith);
        assert(bb * 1000 <= n - 500 <= aa * 1000 ==> bb <= n / 1000 <= aa) by (nonlinear_arith);
    }
    q as u8
}

/// Maps a clamped distance ratio (thousandths, `0..=1000`) to an RGB triple.
pub fn interpolate_color(ratio: u32) -> (r: (u8, u8, u8))
    requires
        ratio <= 1000,
    ensures
        (r.0 as int, r.1 as int, r.2 as int) == interpolate_color_spec(ratio as int),
{
    if ratio < 500 {
        let t = ratio * 2;
        (lerp_u8(255, 212, t), lerp_u8(215, 165, t), lerp_u8(0, 116, t))
    } else {
        let t = (ratio - 500) * 2;
        (lerp_u8(212, 205, t), lerp_u8(165, 127, t), lerp_u8(116, 50, t))
    }
}

/// The gradient hits its three stops exactly: bright gold at ratio `0`,
/// gold at ratio `500` (one half), bronze at ratio `1000` (one).
pub proof fn lemma_color_breakpoints()
    ensures
        interpolate_color_spec(0) == (255int, 215int, 0int),
        interpolate_color_spec(500) == (212int, 165int, 116int),
        interpolate_color_spec(1000) == (205int, 127int, 50int),
{
}

/// The two segments meet: the first segment evaluated at its far end
/// (`t = 1000`) equals the second segment at its start (`t = 0`), so the
/// gradient is continuous across the `ratio = 500` breakpoint.
pub proof fn lemma_color_continuous_at_midpoint()
    ensures
        lerp_channel_spec(255, 212, 1000) == lerp_channel_spec(212, 205, 0),
        lerp_channel_spec(215, 165, 1000) == lerp_channel_spec(165, 127, 0),
        lerp_channel_spec(0, 116, 1000) == lerp_channel_spec(116, 50, 0),
{
}

/// Each channel moves monotonically with the blend parameter: toward `b`
/// as `t` grows. With this, the whole gradient is monotonic between
/// breakpoints, channel by channel.
pub proof fn lemma_lerp_channel_monotone(a: int, b: int, t1: int, t2: int)
    requires
        0 <= a <= 255,
        0 <= b <= 255,
        0 <= t1 <= t2 <= 1000,
    ensures
        a <= b ==> lerp_channel_spec(a, b, t1) <= lerp_channel_spec(a, b, t2),
        b <= a ==> lerp_channel_spec(a, b, t2) <= lerp_channel_spec(a, b, t1),
{
    assert(a <= b ==> a * 1000 + (b - a) * t1 + 500 <= a * 1000 + (b - a) * t2
        + 500) by (nonlinear_arith)
        requires
            t1 <= t2,
    ;
    assert(b <= a ==> a * 1000 + (b - a) * t2 + 500 <= a * 1000 + (b - a) * t1
        + 500) by (nonlinear_arith)
        requires
            t1 <= t2,
    ;
    assert(forall|x: int, y: int| x <= y ==> #[trigger] (x / 1000) <= #[trigger] (y / 1000))
        by (nonlinear_arith);
}

} // verus!
