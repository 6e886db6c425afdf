//! Seeded deterministic 2D simplex noise, used to perturb seed positions.
//!
//! Construction builds a 256-entry permutation by a Fisher-Yates shuffle
//! driven by a linear-congruential generator (multiplier `1103515245`,
//! increment `12345`, modulus `2^32`), then doubles it to 512 entries so
//! sampling never wraps an index. Sampling skews the input into simplex
//! space, finds the three surrounding lattice corners, and sums their
//! gradient contributions; each contribution fades to zero once the squared
//! distance reaches one half.
//!
//! All values are fixed point with `4096` as one (`NOISE_ONE`); the sampled
//! value is clamped to `[-NOISE_ONE, NOISE_ONE]`.

use vstd::prelude::*;

verus! {

/// Fixed-point one for the noise domain and range.
pub const NOISE_ONE: i64 = 4096;

/// The skew constant `(sqrt(3) - 1) / 2`, scaled by `4096` and rounded.
pub const SKEW_F2: u64 = 1499;

/// The unskew constant `(3 - sqrt(3)) / 6`, scaled by `4096` and rounded.
pub const UNSKEW_G2: u64 = 866;

/// One step of the linear-congruential generator, modulo `2^32`.
pub open spec fn lcg_next(r: int) -> int {
    (r * 1103515245 + 12345) % 0x1_0000_0000
}

/// The identity table `0, 1, ..., 255`.
pub open spec fn identity_table() -> Seq<u8> {
    Seq::new(256, |i: int| i as u8)
}

/// Fisher-Yates from position `i` downward: draw from the generator, pick
/// `j` in `0..=i` from the generator's upper bits, swap, recurse.
pub open spec fn fisher_yates(s: Seq<u8>, rng: int, i: int) -> (Seq<u8>, int)
    decreases i,
{
    if i < 1 {
        (s, rng)
    } else {
        let r2 = lcg_next(rng);
        let j = (r2 / 65536) % (i + 1);
        fisher_yates(s.update(i, s[j]).update(j, s[i]), r2, i - 1)
    }
}

/// The 256-entry permutation a seed produces.
pub open spec fn shuffled_table(seed: int) -> Seq<u8> {
    fisher_yates(identity_table(), seed, 255).0
}

/// The 512-entry doubled permutation a seed produces.
pub open spec fn perm_spec(seed: int) -> Seq<u8> {
    Seq::new(512, |k: int| shuffled_table(seed)[k % 256])
}

/// Dot product of gradient `gi` (of the 12-direction table, components in
/// `{-1, 0, 1}`) with `(x, y)`.
pub open spec fn grad_dot(gi: int, x: int, y: int) -> int {
    if gi == 0 || gi == 8 {
        x + y
    } else if gi == 1 || gi == 9 {
        -x + y
    } else if gi == 2 || gi == 10 {
        x - y
    } else if gi == 3 || gi == 11 {
        -x - y
    } else if gi == 4 {
        x
    } else if gi == 5 {
        -x
    } else if gi == 6 {
        y
    } else {
        -y
    }
}

/// A signed fixed-point product `w * g / 4096` with the magnitude rounded
/// toward zero, as the executable sign-split division computes it.
pub open spec fn weigh(w: int, g: int) -> int {
    if g >= 0 {
        (w * g) / 4096
    } else {
        -((w * -g) / 4096)
    }
}

/// One corner's contribution: fade weight `(1/2 - d^2)^4` (zero once the
/// squared distance reaches one half) times the gradient dot product.
pub open spec fn corner_spec(gi: int, x: int, y: int) -> int {
    let t = 2048 - (x * x) / 4096 - (y * y) / 4096;
    if t > 0 {
        let ts = (t * t) / 4096;
        let tq = (ts * ts) / 4096;
        weigh(tq, grad_dot(gi, x, y))
    } else {
        0
    }
}

/// The sampled value at `(x, y)` for permutation table `perm`: the three
/// surrounding simplex corners' contributions, summed, scaled by 70 and
/// clamped to `[-4096, 4096]`.
#[verifier::opaque]
pub open spec fn noise2d_spec(perm: Seq<u8>, x: int, y: int) -> int {
    let s = ((x + y) * 1499) / 4096;
    let i = (x + s) / 4096;
    let j = (y + s) / 4096;
    let t = (i + j) * 866;
    let x0 = x - i * 4096 + t;
    let y0 = y - j * 4096 + t;
    let i1: int = if x0 > y0 {
        1
    } else {
        0
    };
    let j1: int = 1 - i1;
    let x1 = x0 - i1 * 4096 + 866;
    let y1 = y0 - j1 * 4096 + 866;
    let x2 = x0 - 4096 + 2 * 866;
    let y2 = y0 - 4096 + 2 * 866;
    let ii = i % 256;
    let jj = j % 256;
    let gi0 = (perm[ii + perm[jj] as int] as int) % 12;
    let gi1 = (perm[ii + i1 + perm[jj + j1] as int] as int) % 12;
    let gi2 = (perm[ii + 1 + perm[jj + 1] as int] as int) % 12;
    let total = 70 * (corner_spec(gi0, x0, y0) + corner_spec(gi1, x1, y1) + corner_spec(
        gi2,
        x2,
        y2,
    ));
    if total > 4096 {
        4096
    } else if total < -4096 {
        -4096
    } else {
        total
    }
}

/// The seeded noise field: a 512-entry doubled permutation table, immutable
/// after construction and the sole source of reproducibility.
pub struct SimplexNoise {
    pub perm: Vec<u8>,
}

impl SimplexNoise {
    /// The table has its doubled length; every index below 512 is safe.
    pub open spec fn wf(&self) -> bool {
        self.perm@.len() == 512
    }

    /// Builds the permutation table from a seed. Deterministic: the table
    /// is `perm_spec(seed)`, a function of the seed alone.
    pub fn new(seed: u32) -> (field: SimplexNoise)
        ensures
            field.wf(),
            field.perm@ == perm_spec(seed as int),
    {
        let mut p: Vec<u8> = Vec::new();
        let mut i: usize = 0;
        while i < 256
            invariant
                i <= 256,
                p@.len() == i,
                forall|k: int| 0 <= k < i ==> p@[k] == identity_table()[k],
            decreases 256 - i,
        {
            p.push(i as u8);
            i = i + 1;
        }
        proof {
            assert(p@ =~= identity_table());
        }
        let mut rng: u32 = seed;
        let mut i: usize = 255;
        while i >= 1
            invariant
                i <= 255,
                p@.len() == 256,
                fisher_yates(identity_table(), seed as int, 255) == fisher_yates(
                    p@,
                    rng as int,
                    i as int,
                ),
            decreases i,
        {
            let ghost old_p = p@;
            let ghost old_rng = rng as int;
            rng = (((rng as u64) * 1103515245 + 12345) % 0x1_0000_0000) as u32;
            let j: usize = ((rng / 65536) as usize) % (i + 1);
            let pi = p[i];
            let pj = p[j];
            p[i] = pj;
            p[j] = pi;
            proof {
                assert(rng as int == lcg_next(old_rng));
                assert(j as int == (lcg_next(old_rng) / 65536) % (i as int + 1));
                assert(p@ == old_p.update(i as int, old_p[j as int]).update(
                    j as int,
                    old_p[i as int],
                ));
                assert(fisher_yates(old_p, old_rng, i as int) == fisher_yates(
                    p@,
                    rng as int,
                    i as int - 1,
                ));
            }
            i = i - 1;
        }
        proof {
            assert(fisher_yates(p@, rng as int, 0) == (p@, rng as int));
            assert(p@ == shuffled_table(seed as int));
        }
        let mut perm: Vec<u8> = Vec::new();
        let mut k: usize = 0;
        while k < 512
            invariant
                k <= 512,
                p@ == shuffled_table(seed as int),
                p@.len() == 256,
                perm@.len() == k,
                forall|m: int| 0 <= m < k ==> perm@[m] == p@[m % 256],
            decreases 512 - k,
        {
            perm.push(p[k % 256]);
            k = k + 1;
        }
        proof {
            assert(perm@ =~= perm_spec(seed as int));
        }
        SimplexNoise { perm }
    }

    /// Samples the field at a nonnegative fixed-point position. Pure (the
    /// result is `noise2d_spec` of the table and the position alone) and
    /// bounded: always within `[-NOISE_ONE, NOISE_ONE]`.
    pub fn noise2d(&self, x: u64, y: u64) -> (r: i64)
        requires
            self.wf(),
            x <= 0x2000_0000,
            y <= 0x2000_0000,
        ensures
            r == noise2d_spec(self.perm@, x as int, y as int),
            -4096 <= r <= 4096,
    {
        proof {
            reveal(noise2d_spec);
        }
        let s: u64 = ((x + y) * SKEW_F2) / 4096;
        let i: u64 = (x + s) / 4096;
        let j: u64 = (y + s) / 4096;
        let t: u64 = (i + j) * UNSKEW_G2;
        proof {
            assert(s <= 0x2000_0000);
            assert(t <= (i + j) * 866 && i <= 0x4_0000 && j <= 0x4_0000) by (nonlinear_arith)
                requires
                    t == ((i as int) + (j as int)) * 866,
                    i <= (x as int + s as int) / 4096,
                    j <= (y as int + s as int) / 4096,
                    x <= 0x2000_0000,
                    y <= 0x2000_0000,
                    s <= 0x2000_0000,
            ;
        }
        let x0: i64 = (x as i64) - (i * 4096) as i64 + (t as i64);
        let y0: i64 = (y as i64) - (j * 4096) as i64 + (t as i64);
        let (i1, j1): (u64, u64) = if x0 > y0 {
            (1, 0)
        } else {
            (0, 1)
        };
        let x1: i64 = x0 - (i1 * 4096) as i64 + 866;
        let y1: i64 = y0 - (j1 * 4096) as i64 + 866;
        let x2: i64 = x0 - 4096 + 2 * 866;
        let y2: i64 = y0 - 4096 + 2 * 866;
        let ii: usize = (i % 256) as usize;
        let jj: usize = (j % 256) as usize;
        let gi0: u8 = self.perm[ii + self.perm[jj] as usize] % 12;
        let gi1: u8 = self.perm[ii + i1 as usize + self.perm[jj + j1 as usize] as usize] % 12;
        let gi2: u8 = self.perm[ii + 1 + self.perm[jj + 1] as usize] % 12;
        proof {
            assert(4096 * (i as int) <= x + s && 4096 * (j as int) <= y + s);
            assert(-0x4000_0000 <= x0 <= 0x4000_0000 - 8192 && -0x4000_0000 <= y0
                <= 0x4000_0000 - 8192);
        }
        let n0 = corner(gi0, x0, y0);
        let n1 = corner(gi1, x1, y1);
        let n2 = corner(gi2, x2, y2);
        let total: i64 = 70 * (n0 + n1 + n2);
        if total > 4096 {
            4096
        } else if total < -4096 {
            -4096
        } else {
            total
        }
    }
}

/// One corner's contribution, executable form of `corner_spec`.
fn corner(gi: u8, x: i64, y: i64) -> (r: i64)
    requires
        gi < 12,
        -0x4000_0000 <= x <= 0x4000_0000,
        -0x4000_0000 <= y <= 0x4000_0000,
    ensures
        r == corner_spec(gi as int, x as int, y as int),
        -0x800_0000 <= r <= 0x800_0000,
{
    proof {
        assert(0 <= x * x <= 0x4000_0000 * 0x4000_0000 && 0 <= y * y <= 0x4000_0000
            * 0x4000_0000) by (nonlinear_arith)
            requires
                -0x4000_0000 <= x <= 0x4000_0000,
                -0x4000_0000 <= y <= 0x4000_0000,
        ;
    }
    let xsq: u64 = ((x * x) as u64) / 4096;
    let ysq: u64 = ((y * y) as u64) / 4096;
    let t: i64 = 2048 - (xsq as i64) - (ysq as i64);
    if t > 0 {
        assert(0 < (t as int) * (t as int) <= 2048 * 2048) by (nonlinear_arith)
            requires
                0 < t <= 2048,
        ;
        let ts: u64 = ((t * t) as u64) / 4096;
        assert(0 <= ts <= 1024 && 0 <= (ts as int) * (ts as int) <= 1024 * 1024)
            by (nonlinear_arith)
            requires
                0 < t <= 2048,
                ts == (t as int) * (t as int) / 4096,
        ;
        let tq: u64 = (ts * ts) / 4096;
        assert(0 <= tq <= 256) by (nonlinear_arith)
            requires
                0 <= ts <= 1024,
                tq == (ts as int) * (ts as int) / 4096,
        ;
        let g = grad(gi, x, y);
        proof {
            assert((g >= 0 ==> 0 <= tq * g <= 256 * 0x8000_0000) && (g < 0 ==> 0 <= tq * -g
                <= 256 * 0x8000_0000)) by (nonlinear_arith)
                requires
                    0 <= tq <= 256,
                    -0x8000_0000 <= g <= 0x8000_0000,
            ;
            assert(forall|m: int| 0 <= m <= 256 * 0x8000_0000 ==> 0 <= #[trigger] (m / 4096)
                <= 0x800_0000) by (nonlinear_arith);
        }
        if g >= 0 {
            ((tq * (g as u64)) / 4096) as i64
        } else {
            -(((tq * ((-g) as u64)) / 4096) as i64)
        }
    } else {
        0
    }
}

/// Gradient dot product, executable form of `grad_dot`.
fn grad(gi: u8, x: i64, y: i64) -> (g: i64)
    requires
        gi < 12,
        -0x4000_0000 <= x <= 0x4000_0000,
        -0x4000_0000 <= y <= 0x4000_0000,
    ensures
        g == grad_dot(gi as int, x as int, y as int),
        -0x8000_0000 <= g <= 0x8000_0000,
{
    if gi == 0 || gi == 8 {
        x + y
    } else if gi == 1 || gi == 9 {
        -x + y
    } else if gi == 2 || gi == 10 {
        x - y
    } else if gi == 3 || gi == 11 {
        -x - y
    } else if gi == 4 {
        x
    } else if gi == 5 {
        -x
    } else if gi == 6 {
        y
    } else {
        -y
    }
}

} // verus!
