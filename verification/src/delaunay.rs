//! Bowyer-Watson Delaunay triangulation over fixed-point integer
//! coordinates, exposed as a deduplicated set of geometric edges.
//!
//! The circumcircle predicate is exact: the rational circumcenter
//! `(nx/d, ny/d)` is never formed; instead the distance comparison is
//! cross-multiplied by `d^2` and evaluated in 128-bit integers, which the
//! coordinate bound keeps free of overflow. A triangle with zero doubled
//! signed area (`d == 0`) is degenerate and conservatively treated as
//! containing nothing, so it is never destroyed on that account and no
//! division by zero can arise.

use crate::seeds::Seed;
use vstd::prelude::*;

verus! {

/// Coordinates handed to the triangulator stay within this magnitude
/// (canvas plus super-triangle margin); it keeps the exact circumcircle
/// arithmetic inside `i128`.
pub const MAX_TRI_COORD: i64 = 0x4_0000;

/// A triangle as three indices into the working point list (real seeds
/// first, then the three synthetic super-triangle vertices). The indices
/// are kept pairwise distinct.
#[derive(Clone, Copy, PartialEq, Eq, Structural, Debug)]
pub struct Triangle {
    pub p1: usize,
    pub p2: usize,
    pub p3: usize,
}

/// A finished edge for rendering: the canonical index pair (`a < b`, both
/// real seeds) and the two endpoint positions it connects.
#[derive(Clone, Copy, PartialEq, Eq, Structural, Debug)]
pub struct Edge {
    pub a: usize,
    pub b: usize,
    pub x1: i64,
    pub y1: i64,
    pub x2: i64,
    pub y2: i64,
}

/// Twice the doubled signed area of the triangle `a, b, c`: the
/// denominator of the circumcenter.
pub open spec fn circum_d(ax: int, ay: int, bx: int, by: int, cx: int, cy: int) -> int {
    2 * (ax * (by - cy) + bx * (cy - ay) + cx * (ay - by))
}

/// Numerator of the circumcenter's x coordinate.
pub open spec fn circum_nx(ax: int, ay: int, bx: int, by: int, cx: int, cy: int) -> int {
    (ax * ax + ay * ay) * (by - cy) + (bx * bx + by * by) * (cy - ay) + (cx * cx + cy * cy) * (ay
        - by)
}

/// Numerator of the circumcenter's y coordinate.
pub open spec fn circum_ny(ax: int, ay: int, bx: int, by: int, cx: int, cy: int) -> int {
    (ax * ax + ay * ay) * (cx - bx) + (bx * bx + by * by) * (ax - cx) + (cx * cx + cy * cy) * (bx
        - ax)
}

/// Whether `(px, py)` lies strictly inside the circumcircle of `a, b, c`:
/// the comparison `|p - u|^2 < |a - u|^2` against the circumcenter
/// `u = (nx/d, ny/d)`, cross-multiplied by `d^2`. A degenerate triangle
/// (`d == 0`) contains nothing.
#[verifier::opaque]
pub open spec fn in_circumcircle(
    ax: int,
    ay: int,
    bx: int,
    by: int,
    cx: int,
    cy: int,
    px: int,
    py: int,
) -> bool {
    let d = circum_d(ax, ay, bx, by, cx, cy);
    if d == 0 {
        false
    } else {
        let nx = circum_nx(ax, ay, bx, by, cx, cy);
        let ny = circum_ny(ax, ay, bx, by, cx, cy);
        (px * d - nx) * (px * d - nx) + (py * d - ny) * (py * d - ny) < (ax * d - nx) * (ax * d
            - nx) + (ay * d - ny) * (ay * d - ny)
    }
}

/// Exact circumcircle test on bounded fixed-point coordinates.
pub fn circumcircle_contains(
    ax: i64,
    ay: i64,
    bx: i64,
    by: i64,
    cx: i64,
    cy: i64,
    px: i64,
    py: i64,
) -> (r: bool)
    requires
        -MAX_TRI_COORD <= ax <= MAX_TRI_COORD,
        -MAX_TRI_COORD <= ay <= MAX_TRI_COORD,
        -MAX_TRI_COORD <= bx <= MAX_TRI_COORD,
        -MAX_TRI_COORD <= by <= MAX_TRI_COORD,
        -MAX_TRI_COORD <= cx <= MAX_TRI_COORD,
        -MAX_TRI_COORD <= cy <= MAX_TRI_COORD,
        -MAX_TRI_COORD <= px <= MAX_TRI_COORD,
        -MAX_TRI_COORD <= py <= MAX_TRI_COORD,
    ensures
        r == in_circumcircle(
            ax as int,
            ay as int,
            bx as int,
            by as int,
            cx as int,
            cy as int,
            px as int,
            py as int,
        ),
{
    proof {
        reveal(in_circumcircle);
        lemma_circum_term_bounds(ax as int, ay as int, bx as int, by as int, cx as int, cy as int);
    }
    let sa: i64 = ax * ax + ay * ay;
    let sb: i64 = bx * bx + by * by;
    let sc: i64 = cx * cx + cy * cy;
    let cross: i64 = ax * (by - cy) + bx * (cy - ay) + cx * (ay - by);
    let d: i64 = 2 * cross;
    if d == 0 {
        return false;
    }
    let nx: i64 = sa * (by - cy) + sb * (cy - ay) + sc * (ay - by);
    let ny: i64 = sa * (cx - bx) + sb * (ax - cx) + sc * (bx - ax);
    proof {
        lemma_circum_diff_bounds(ax as int, px as int, d as int, nx as int);
        lemma_circum_diff_bounds(ay as int, py as int, d as int, ny as int);
    }
    let dpx: i64 = px * d - nx;
    let dpy: i64 = py * d - ny;
    let dax: i64 = ax * d - nx;
    let day: i64 = ay * d - ny;
    proof {
        lemma_square_sum_bound(dpx as int, dpy as int);
        lemma_square_sum_bound(dax as int, day as int);
    }
    let lhs: i128 = (dpx as i128) * (dpx as i128) + (dpy as i128) * (dpy as i128);
    let rhs: i128 = (dax as i128) * (dax as i128) + (day as i128) * (day as i128);
    lhs < rhs
}

/// Bounds for the intermediate products of the circumcircle predicate:
/// with coordinates at most `2^18`, each squared-norm times a coordinate
/// difference stays below `4 * 2^54`, so the numerators and the
/// denominator fit comfortably in `i64`.
proof fn lemma_circum_term_bounds(ax: int, ay: int, bx: int, by: int, cx: int, cy: int)
    requires
        -0x4_0000 <= ax <= 0x4_0000,
        -0x4_0000 <= ay <= 0x4_0000,
        -0x4_0000 <= bx <= 0x4_0000,
        -0x4_0000 <= by <= 0x4_0000,
        -0x4_0000 <= cx <= 0x4_0000,
        -0x4_0000 <= cy <= 0x4_0000,
    ensures
        0 <= ax * ax <= 0x4_0000 * 0x4_0000,
        0 <= ay * ay <= 0x4_0000 * 0x4_0000,
        0 <= bx * bx <= 0x4_0000 * 0x4_0000,
        0 <= by * by <= 0x4_0000 * 0x4_0000,
        0 <= cx * cx <= 0x4_0000 * 0x4_0000,
        0 <= cy * cy <= 0x4_0000 * 0x4_0000,
        0 <= ax * ax + ay * ay <= 2 * 0x4_0000 * 0x4_0000,
        0 <= bx * bx + by * by <= 2 * 0x4_0000 * 0x4_0000,
        0 <= cx * cx + cy * cy <= 2 * 0x4_0000 * 0x4_0000,
        -2 * 0x4_0000 * 0x4_0000 <= ax * (by - cy) <= 2 * 0x4_0000 * 0x4_0000,
        -2 * 0x4_0000 * 0x4_0000 <= bx * (cy - ay) <= 2 * 0x4_0000 * 0x4_0000,
        -2 * 0x4_0000 * 0x4_0000 <= cx * (ay - by) <= 2 * 0x4_0000 * 0x4_0000,
        -4 * 0x4_0000 * 0x4_0000 * 0x4_0000 <= (ax * ax + ay * ay) * (by - cy) <= 4 * 0x4_0000
            * 0x4_0000 * 0x4_0000,
        -4 * 0x4_0000 * 0x4_0000 * 0x4_0000 <= (bx * bx + by * by) * (cy - ay) <= 4 * 0x4_0000
            * 0x4_0000 * 0x4_0000,
        -4 * 0x4_0000 * 0x4_0000 * 0x4_0000 <= (cx * cx + cy * cy) * (ay - by) <= 4 * 0x4_0000
            * 0x4_0000 * 0x4_0000,
        -4 * 0x4_0000 * 0x4_0000 * 0x4_0000 <= (ax * ax + ay * ay) * (cx - bx) <= 4 * 0x4_0000
            * 0x4_0000 * 0x4_0000,
        -4 * 0x4_0000 * 0x4_0000 * 0x4_0000 <= (bx * bx + by * by) * (ax - cx) <= 4 * 0x4_0000
            * 0x4_0000 * 0x4_0000,
        -4 * 0x4_0000 * 0x4_0000 * 0x4_0000 <= (cx * cx + cy * cy) * (bx - ax) <= 4 * 0x4_0000
            * 0x4_0000 * 0x4_0000,
{
    assert(0 <= ax * ax <= 0x4_0000 * 0x4_0000 && 0 <= ay * ay <= 0x4_0000 * 0x4_0000 && 0 <= bx
        * bx <= 0x4_0000 * 0x4_0000 && 0 <= by * by <= 0x4_0000 * 0x4_0000 && 0 <= cx * cx
        <= 0x4_0000 * 0x4_0000 && 0 <= cy * cy <= 0x4_0000 * 0x4_0000 && 0 <= ax * ax + ay * ay
        <= 2 * 0x4_0000 * 0x4_0000 && 0 <= bx * bx + by * by <= 2
        * 0x4_0000 * 0x4_0000 && 0 <= cx * cx + cy * cy <= 2 * 0x4_0000 * 0x4_0000 && -2 * 0x4_0000
        * 0x4_0000 <= ax * (by - cy) <= 2 * 0x4_0000 * 0x4_0000 && -2 * 0x4_0000 * 0x4_0000 <= bx
        * (cy - ay) <= 2 * 0x4_0000 * 0x4_0000 && -2 * 0x4_0000 * 0x4_0000 <= cx * (ay - by) <= 2
        * 0x4_0000 * 0x4_0000 && -4 * 0x4_0000 * 0x4_0000 * 0x4_0000 <= (ax * ax + ay * ay) * (by
        - cy) <= 4 * 0x4_0000 * 0x4_0000 * 0x4_0000 && -4 * 0x4_0000 * 0x4_0000 * 0x4_0000 <= (bx
        * bx + by * by) * (cy - ay) <= 4 * 0x4_0000 * 0x4_0000 * 0x4_0000 && -4 * 0x4_0000
        * 0x4_0000 * 0x4_0000 <= (cx * cx + cy * cy) * (ay - by) <= 4 * 0x4_0000 * 0x4_0000
        * 0x4_0000 && -4 * 0x4_0000 * 0x4_0000 * 0x4_0000 <= (ax * ax + ay * ay) * (cx - bx) <= 4
        * 0x4_0000 * 0x4_0000 * 0x4_0000 && -4 * 0x4_0000 * 0x4_0000 * 0x4_0000 <= (bx * bx + by
        * by) * (ax - cx) <= 4 * 0x4_0000 * 0x4_0000 * 0x4_0000 && -4 * 0x4_0000 * 0x4_0000
        * 0x4_0000 <= (cx * cx + cy * cy) * (bx - ax) <= 4 * 0x4_0000 * 0x4_0000
        * 0x4_0000) by (nonlinear_arith)
        requires
            -0x4_0000 <= ax <= 0x4_0000,
            -0x4_0000 <= ay <= 0x4_0000,
            -0x4_0000 <= bx <= 0x4_0000,
            -0x4_0000 <= by <= 0x4_0000,
            -0x4_0000 <= cx <= 0x4_0000,
            -0x4_0000 <= cy <= 0x4_0000,
    ;
}

/// A coordinate times the denominator stays within `12 * 2^54`, so the
/// difference against a numerator stays within `24 * 2^54`.
proof fn lemma_circum_diff_bounds(a: int, p: int, d: int, n: int)
    requires
        -0x4_0000 <= a <= 0x4_0000,
        -0x4_0000 <= p <= 0x4_0000,
        -12 * 0x4_0000 * 0x4_0000 <= d <= 12 * 0x4_0000 * 0x4_0000,
        -12 * 0x4_0000 * 0x4_0000 * 0x4_0000 <= n <= 12 * 0x4_0000 * 0x4_0000 * 0x4_0000,
    ensures
        -432345564227567616 <= p * d - n <= 432345564227567616,
        -432345564227567616 <= a * d - n <= 432345564227567616,
{
    assert(-12 * 0x4_0000 * 0x4_0000 * 0x4_0000 <= p * d <= 12 * 0x4_0000 * 0x4_0000 * 0x4_0000
        && -12 * 0x4_0000 * 0x4_0000 * 0x4_0000 <= a * d <= 12 * 0x4_0000 * 0x4_0000
        * 0x4_0000) by (nonlinear_arith)
        requires
            -0x4_0000 <= a <= 0x4_0000,
            -0x4_0000 <= p <= 0x4_0000,
            -12 * 0x4_0000 * 0x4_0000 <= d <= 12 * 0x4_0000 * 0x4_0000,
    ;
}

/// The sum of two squares of values within `24 * 2^54` fits in `i128`.
proof fn lemma_square_sum_bound(u: int, v: int)
    requires
        -432345564227567616 <= u <= 432345564227567616,
        -432345564227567616 <= v <= 432345564227567616,
    ensures
        0 <= u * u <= 186922686907253794627097867851923456,
        0 <= v * v <= 186922686907253794627097867851923456,
{
    assert(0 <= u * u <= 186922686907253794627097867851923456 && 0 <= v * v <= 186922686907253794627097867851923456) by (nonlinear_arith)
        requires
            -432345564227567616 <= u <= 432345564227567616,
            -432345564227567616 <= v <= 432345564227567616,
    ;
}

/// Whether `(a, b)` matches one of the triangle's three edges in either
/// direction.
pub open spec fn tri_has_edge(t: Triangle, a: int, b: int) -> bool {
    ||| (t.p1 == a && t.p2 == b)
    ||| (t.p2 == a && t.p1 == b)
    ||| (t.p2 == a && t.p3 == b)
    ||| (t.p3 == a && t.p2 == b)
    ||| (t.p3 == a && t.p1 == b)
    ||| (t.p1 == a && t.p3 == b)
}

/// Every vertex is either a real point already inserted (below
/// `inserted`) or one of the three super-triangle vertices (`st..st+3`),
/// and the three vertices are pairwise distinct.
pub open spec fn tri_vertices_ok(t: Triangle, inserted: int, st: int) -> bool {
    &&& (t.p1 < inserted || st <= t.p1 < st + 3)
    &&& (t.p2 < inserted || st <= t.p2 < st + 3)
    &&& (t.p3 < inserted || st <= t.p3 < st + 3)
    &&& t.p1 != t.p2
    &&& t.p2 != t.p3
    &&& t.p1 != t.p3
}

/// A finished edge is a canonical pair of two distinct real seeds,
/// carrying those seeds' positions.
pub open spec fn edge_wf(e: Edge, seeds: Seq<Seed>) -> bool {
    &&& e.a < e.b < seeds.len()
    &&& e.x1 == seeds[e.a as int].x
    &&& e.y1 == seeds[e.a as int].y
    &&& e.x2 == seeds[e.b as int].x
    &&& e.y2 == seeds[e.b as int].y
}

/// Shared-edge test against one triangle.
fn shares_edge(t: &Triangle, a: usize, b: usize) -> (r: bool)
    ensures
        r == tri_has_edge(*t, a as int, b as int),
{
    (t.p1 == a && t.p2 == b) || (t.p2 == a && t.p1 == b) || (t.p2 == a && t.p3 == b) || (t.p3 == a
        && t.p2 == b) || (t.p3 == a && t.p1 == b) || (t.p1 == a && t.p3 == b)
}

/// Whether the canonical pair `(a, b)` is already among the collected
/// edges.
fn contains_pair(edges: &Vec<Edge>, a: usize, b: usize) -> (r: bool)
    ensures
        r == exists|k: int| 0 <= k < edges@.len() && (#[trigger] edges@[k]).a == a && edges@[k].b
            == b,
{
    let mut k: usize = 0;
    while k < edges.len()
        invariant
            k <= edges@.len(),
            forall|m: int| 0 <= m < k ==> !((#[trigger] edges@[m]).a == a && edges@[m].b == b),
        decreases edges@.len() - k,
    {
        if edges[k].a == a && edges[k].b == b {
            return true;
        }
        k = k + 1;
    }
    false
}

/// A working point within the coordinate budget of the exact predicate.
pub open spec fn coord_ok(p: (i64, i64)) -> bool {
    -MAX_TRI_COORD <= p.0 <= MAX_TRI_COORD && -MAX_TRI_COORD <= p.1 <= MAX_TRI_COORD
}

/// The super-triangle margin: twice the larger canvas dimension.
pub open spec fn margin_spec(width: int, height: int) -> int {
    if width > height {
        width * 2
    } else {
        height * 2
    }
}

/// The working point list: every seed's position, then the three
/// synthetic super-triangle vertices far outside the canvas.
pub open spec fn pts_spec(seeds: Seq<Seed>, width: int, height: int) -> Seq<(int, int)> {
    let m = margin_spec(width, height);
    seeds.map(|k: int, s: Seed| (s.x as int, s.y as int)) + seq![
        (width / 2, -m),
        (-m, height + m),
        (width + m, height + m),
    ]
}

/// Whether the point `p` lies strictly inside the circumcircle of
/// triangle `t` of the working point list.
pub open spec fn tri_in_circle(t: Triangle, pts: Seq<(int, int)>, p: (int, int)) -> bool {
    in_circumcircle(
        pts[t.p1 as int].0,
        pts[t.p1 as int].1,
        pts[t.p2 as int].0,
        pts[t.p2 as int].1,
        pts[t.p3 as int].0,
        pts[t.p3 as int].1,
        p.0,
        p.1,
    )
}

/// The indices of the first `n` triangles whose circumcircle strictly
/// contains `p`, in ascending order: the "bad" triangles of one insertion.
pub open spec fn bad_rec(tris: Seq<Triangle>, pts: Seq<(int, int)>, p: (int, int), n: int) -> Seq<
    usize,
>
    decreases n,
{
    if n <= 0 {
        Seq::empty()
    } else {
        let pre = bad_rec(tris, pts, p, n - 1);
        if tri_in_circle(tris[n - 1], pts, p) {
            pre.push((n - 1) as usize)
        } else {
            pre
        }
    }
}

/// The edge pairs of a triangle in the fixed traversal order.
pub open spec fn tri_edge_pair(t: Triangle, e: int) -> (usize, usize) {
    if e == 0 {
        (t.p1, t.p2)
    } else if e == 1 {
        (t.p2, t.p3)
    } else {
        (t.p3, t.p1)
    }
}

/// Whether edge `(a, b)` of the bad triangle at position `bi` also occurs
/// in one of the first `n` bad triangles other than `bi` itself: a shared
/// edge is interior to the cavity, not on its boundary.
pub open spec fn shared_rec(
    tris: Seq<Triangle>,
    bad: Seq<usize>,
    bi: int,
    a: usize,
    b: usize,
    n: int,
) -> bool
    decreases n,
{
    if n <= 0 {
        false
    } else {
        (n - 1 != bi && tri_has_edge(tris[bad[n - 1] as int], a as int, b as int)) || shared_rec(
            tris,
            bad,
            bi,
            a,
            b,
            n - 1,
        )
    }
}

/// The boundary edges contributed by bad triangle `bi`, among its first
/// `e` edges: those not shared with another bad triangle.
pub open spec fn poly_edges_rec(tris: Seq<Triangle>, bad: Seq<usize>, bi: int, e: int) -> Seq<
    (usize, usize),
>
    decreases e,
{
    if e <= 0 {
        Seq::empty()
    } else {
        let pre = poly_edges_rec(tris, bad, bi, e - 1);
        let (a, b) = tri_edge_pair(tris[bad[bi] as int], e - 1);
        if !shared_rec(tris, bad, bi, a, b, bad.len() as int) {
            pre.push((a, b))
        } else {
            pre
        }
    }
}

/// The cavity boundary polygon: the unshared edges of the first `n` bad
/// triangles, in traversal order.
pub open spec fn polygon_rec(tris: Seq<Triangle>, bad: Seq<usize>, n: int) -> Seq<(usize, usize)>
    decreases n,
{
    if n <= 0 {
        Seq::empty()
    } else {
        polygon_rec(tris, bad, n - 1) + poly_edges_rec(tris, bad, n - 1, 3)
    }
}

/// The first `n` triangles with the bad ones removed, order kept.
pub open spec fn kept_rec(tris: Seq<Triangle>, bad: Seq<usize>, n: int) -> Seq<Triangle>
    decreases n,
{
    if n <= 0 {
        Seq::empty()
    } else {
        let pre = kept_rec(tris, bad, n - 1);
        if bad.contains((n - 1) as usize) {
            pre
        } else {
            pre.push(tris[n - 1])
        }
    }
}

/// `tris` extended with one new triangle per boundary edge, each joining
/// the edge to the newly inserted point `i`.
pub open spec fn with_new_rec(
    tris: Seq<Triangle>,
    poly: Seq<(usize, usize)>,
    i: usize,
    n: int,
) -> Seq<Triangle>
    decreases n,
{
    if n <= 0 {
        tris
    } else {
        with_new_rec(tris, poly, i, n - 1).push(
            Triangle { p1: poly[n - 1].0, p2: poly[n - 1].1, p3: i },
        )
    }
}

/// One Bowyer-Watson insertion: find the bad triangles, collect the
/// cavity boundary, drop the bad triangles, fill the cavity from point `i`.
pub open spec fn step_spec(tris: Seq<Triangle>, pts: Seq<(int, int)>, i: usize) -> Seq<Triangle> {
    let p = pts[i as int];
    let bad = bad_rec(tris, pts, p, tris.len() as int);
    let poly = polygon_rec(tris, bad, bad.len() as int);
    let kept = kept_rec(tris, bad, tris.len() as int);
    with_new_rec(kept, poly, i, poly.len() as int)
}

/// The triangle list after inserting the first `n` real points into the
/// super-triangle (whose vertices are `st`, `st+1`, `st+2`).
pub open spec fn insert_rec(pts: Seq<(int, int)>, st: usize, n: int) -> Seq<Triangle>
    decreases n,
{
    if n <= 0 {
        seq![Triangle { p1: st, p2: (st + 1) as usize, p3: (st + 2) as usize }]
    } else {
        step_spec(insert_rec(pts, st, n - 1), pts, (n - 1) as usize)
    }
}

/// The first `n` triangles that reference no super-triangle vertex.
pub open spec fn finals_rec(tris: Seq<Triangle>, st: usize, n: int) -> Seq<Triangle>
    decreases n,
{
    if n <= 0 {
        Seq::empty()
    } else {
        let pre = finals_rec(tris, st, n - 1);
        let t = tris[n - 1];
        if t.p1 < st && t.p2 < st && t.p3 < st {
            pre.push(t)
        } else {
            pre
        }
    }
}

/// A triangle edge as a canonical unordered pair (smaller index first).
pub open spec fn canon_pair(t: Triangle, e: int) -> (usize, usize) {
    let (a, b) = tri_edge_pair(t, e);
    if a < b {
        (a, b)
    } else {
        (b, a)
    }
}

/// Whether the canonical pair `(a, b)` already occurs in the edge list.
pub open spec fn has_pair(edges: Seq<Edge>, a: usize, b: usize) -> bool {
    exists|k: int| 0 <= k < edges.len() && (#[trigger] edges[k]).a == a && edges[k].b == b
}

/// `edges` extended with the first `e` canonical edges of triangle `t`
/// that are not yet present, materialized with the seeds' positions.
pub open spec fn dedup_tri_rec(edges: Seq<Edge>, t: Triangle, seeds: Seq<Seed>, e: int) -> Seq<
    Edge,
>
    decreases e,
{
    if e <= 0 {
        edges
    } else {
        let pre = dedup_tri_rec(edges, t, seeds, e - 1);
        let (lo, hi) = canon_pair(t, e - 1);
        if has_pair(pre, lo, hi) {
            pre
        } else {
            pre.push(
                Edge {
                    a: lo,
                    b: hi,
                    x1: seeds[lo as int].x,
                    y1: seeds[lo as int].y,
                    x2: seeds[hi as int].x,
                    y2: seeds[hi as int].y,
                },
            )
        }
    }
}

/// The deduplicated edge list of the first `n` surviving triangles.
pub open spec fn dedup_rec(finals: Seq<Triangle>, seeds: Seq<Seed>, n: int) -> Seq<Edge>
    decreases n,
{
    if n <= 0 {
        Seq::empty()
    } else {
        dedup_tri_rec(dedup_rec(finals, seeds, n - 1), finals[n - 1], seeds, 3)
    }
}

/// The whole triangulation as a function of the input alone: what
/// `compute_delaunay_edges` returns.
pub open spec fn delaunay_edges_spec(seeds: Seq<Seed>, width: int, height: int) -> Seq<Edge> {
    if seeds.len() < 3 {
        Seq::empty()
    } else {
        let pts = pts_spec(seeds, width, height);
        let st = seeds.len() as usize;
        let tris = insert_rec(pts, st, seeds.len() as int);
        let finals = finals_rec(tris, st, tris.len() as int);
        dedup_rec(finals, seeds, finals.len() as int)
    }
}

/// Computes the deduplicated Delaunay edge set of `seeds` within the
/// bounds `[0, width] x [0, height]` by incremental Bowyer-Watson
/// insertion inside a synthetic super-triangle.
///
/// Fewer than three points give an empty edge set. Every returned edge
/// joins two distinct real seeds (never a super-triangle vertex), as a
/// canonical `a < b` index pair with the seeds' positions, and no
/// unordered pair occurs twice.
pub fn compute_delaunay_edges(seeds: &Vec<Seed>, width: i64, height: i64) -> (edges: Vec<Edge>)
    requires
        seeds@.len() <= 0x10000,
        0 <= width <= 0x1_0000,
        0 <= height <= 0x1_0000,
        forall|k: int|
            0 <= k < seeds@.len() ==> {
                &&& -0x2_0000 <= (#[trigger] seeds@[k]).x <= 0x2_0000
                &&& -0x2_0000 <= seeds@[k].y <= 0x2_0000
            },
    ensures
        seeds@.len() < 3 ==> edges@.len() == 0,
        forall|k: int| 0 <= k < edges@.len() ==> edge_wf(#[trigger] edges@[k], seeds@),
        forall|k: int, l: int|
            0 <= k < l < edges@.len() ==> !((#[trigger] edges@[k]).a == (#[trigger] edges@[l]).a
                && edges@[k].b == edges@[l].b),
        edges@ == delaunay_edges_spec(seeds@, width as int, height as int),
{
    let mut edges: Vec<Edge> = Vec::new();
    if seeds.len() < 3 {
        return edges;
    }
    let st: usize = seeds.len();
    let margin: i64 = if width > height {
        width * 2
    } else {
        height * 2
    };

    let mut pts: Vec<(i64, i64)> = Vec::new();
    let mut k: usize = 0;
    while k < st
        invariant
            k <= st,
            st == seeds@.len(),
            seeds@.len() <= 0x10000,
            pts@.len() == k,
            forall|m: int|
                0 <= m < k ==> (#[trigger] pts@[m]) == (seeds@[m].x, seeds@[m].y),
            forall|m: int|
                0 <= m < seeds@.len() ==> {
                    &&& -0x2_0000 <= (#[trigger] seeds@[m]).x <= 0x2_0000
                    &&& -0x2_0000 <= seeds@[m].y <= 0x2_0000
                },
        decreases st - k,
    {
        pts.push((seeds[k].x, seeds[k].y));
        k = k + 1;
    }
    pts.push((width / 2, -margin));
    pts.push((-margin, height + margin));
    pts.push((width + margin, height + margin));

    let ghost gpts = pts_spec(seeds@, width as int, height as int);
    proof {
        assert(gpts.len() == pts@.len());
        assert forall|m: int| 0 <= m < pts@.len() implies #[trigger] gpts[m] == (
            pts@[m].0 as int,
            pts@[m].1 as int,
        ) by {
            if m < st {
                assert(pts@[m] == (seeds@[m].x, seeds@[m].y));
            }
        }
        assert(forall|m: int| 0 <= m < pts@.len() ==> #[trigger] coord_ok(pts@[m]));
    }

    let mut triangles: Vec<Triangle> = Vec::new();
    triangles.push(Triangle { p1: st, p2: st + 1, p3: st + 2 });
    proof {
        assert(triangles@ =~= insert_rec(gpts, st, 0));
    }

    let mut i: usize = 0;
    while i < st
        invariant
            i <= st,
            st == seeds@.len(),
            3 <= st <= 0x10000,
            pts@.len() == st + 3,
            forall|m: int| 0 <= m < st ==> (#[trigger] pts@[m]) == (seeds@[m].x, seeds@[m].y),
            forall|m: int| 0 <= m < pts@.len() ==> #[trigger] coord_ok(pts@[m]),
            gpts == pts_spec(seeds@, width as int, height as int),
            gpts.len() == pts@.len(),
            forall|m: int|
                0 <= m < pts@.len() ==> #[trigger] gpts[m] == (pts@[m].0 as int, pts@[m].1 as int),
            triangles@ == insert_rec(gpts, st, i as int),
            forall|m: int|
                0 <= m < triangles@.len() ==> tri_vertices_ok(
                    #[trigger] triangles@[m],
                    i as int,
                    st as int,
                ),
        decreases st - i,
    {
        let px = pts[i].0;
        let py = pts[i].1;
        let ghost tris0 = triangles@;
        let ghost gp = gpts[i as int];
        proof {
            assert(coord_ok(pts@[i as int]));
            assert(gp == (px as int, py as int));
        }

        let mut bad: Vec<usize> = Vec::new();
        let mut ti: usize = 0;
        while ti < triangles.len()
            invariant
                ti <= triangles@.len(),
                pts@.len() == st + 3,
                forall|m: int| 0 <= m < pts@.len() ==> #[trigger] coord_ok(pts@[m]),
                forall|m: int|
                    0 <= m < triangles@.len() ==> tri_vertices_ok(
                        #[trigger] triangles@[m],
                        i as int,
                        st as int,
                    ),
                i < st,
                -MAX_TRI_COORD <= px <= MAX_TRI_COORD,
                -MAX_TRI_COORD <= py <= MAX_TRI_COORD,
                forall|m: int| 0 <= m < bad@.len() ==> (#[trigger] bad@[m]) < triangles@.len(),
                forall|m: int, l: int| 0 <= m < l < bad@.len() ==> bad@[m] < bad@[l],
                forall|m: int| 0 <= m < bad@.len() ==> (#[trigger] bad@[m]) < ti,
                triangles@ == tris0,
                gp == (px as int, py as int),
                gpts.len() == pts@.len(),
                forall|m: int|
                    0 <= m < pts@.len() ==> #[trigger] gpts[m] == (
                        pts@[m].0 as int,
                        pts@[m].1 as int,
                    ),
                bad@ == bad_rec(triangles@, gpts, gp, ti as int),
            decreases triangles@.len() - ti,
        {
            let t = triangles[ti];
            let (ax, ay) = pts[t.p1];
            let (bx, by) = pts[t.p2];
            let (cx, cy) = pts[t.p3];
            proof {
                assert(coord_ok(pts@[t.p1 as int]) && coord_ok(pts@[t.p2 as int]) && coord_ok(
                    pts@[t.p3 as int],
                ) && coord_ok(pts@[i as int]));
            }
            let inside = circumcircle_contains(ax, ay, bx, by, cx, cy, px, py);
            proof {
                assert(inside == tri_in_circle(triangles@[ti as int], gpts, gp));
            }
            if inside {
                bad.push(ti);
            }
            ti = ti + 1;
        }

        let mut polygon: Vec<(usize, usize)> = Vec::new();
        let mut bi: usize = 0;
        while bi < bad.len()
            invariant
                bi <= bad@.len(),
                triangles@ == tris0,
                polygon@ == polygon_rec(triangles@, bad@, bi as int),
                forall|m: int| 0 <= m < bad@.len() ==> (#[trigger] bad@[m]) < triangles@.len(),
                forall|m: int|
                    0 <= m < triangles@.len() ==> tri_vertices_ok(
                        #[trigger] triangles@[m],
                        i as int,
                        st as int,
                    ),
                i < st,
                forall|m: int|
                    0 <= m < polygon@.len() ==> {
                        let (a, b) = #[trigger] polygon@[m];
                        &&& a != b
                        &&& a != i && b != i
                        &&& (a < i || st <= a < st + 3)
                        &&& (b < i || st <= b < st + 3)
                    },
            decreases bad@.len() - bi,
        {
            let t = triangles[bad[bi]];
            proof {
                assert(polygon@ =~= polygon_rec(triangles@, bad@, bi as int) + poly_edges_rec(
                    triangles@,
                    bad@,
                    bi as int,
                    0,
                ));
            }
            let mut e: usize = 0;
            while e < 3
                invariant
                    e <= 3,
                    bi < bad@.len(),
                    triangles@ == tris0,
                    polygon@ == polygon_rec(triangles@, bad@, bi as int) + poly_edges_rec(
                        triangles@,
                        bad@,
                        bi as int,
                        e as int,
                    ),
                    forall|m: int| 0 <= m < bad@.len() ==> (#[trigger] bad@[m]) < triangles@.len(),
                    forall|m: int|
                        0 <= m < triangles@.len() ==> tri_vertices_ok(
                            #[trigger] triangles@[m],
                            i as int,
                            st as int,
                        ),
                    i < st,
                    t == triangles@[bad@[bi as int] as int],
                    forall|m: int|
                        0 <= m < polygon@.len() ==> {
                            let (a, b) = #[trigger] polygon@[m];
                            &&& a != b
                            &&& a != i && b != i
                            &&& (a < i || st <= a < st + 3)
                            &&& (b < i || st <= b < st + 3)
                        },
                decreases 3 - e,
            {
                let (ea, eb): (usize, usize) = if e == 0 {
                    (t.p1, t.p2)
                } else if e == 1 {
                    (t.p2, t.p3)
                } else {
                    (t.p3, t.p1)
                };
                let mut shared = false;
                let mut bj: usize = 0;
                while bj < bad.len()
                    invariant
                        bj <= bad@.len(),
                        bi < bad@.len(),
                        shared == shared_rec(triangles@, bad@, bi as int, ea, eb, bj as int),
                        forall|m: int|
                            0 <= m < bad@.len() ==> (#[trigger] bad@[m]) < triangles@.len(),
                    decreases bad@.len() - bj,
                {
                    if bj != bi {
                        if shares_edge(&triangles[bad[bj]], ea, eb) {
                            shared = true;
                        }
                    }
                    bj = bj + 1;
                }
                proof {
                    assert((ea, eb) == tri_edge_pair(triangles@[bad@[bi as int] as int], e as int));
                    assert(shared == shared_rec(
                        triangles@,
                        bad@,
                        bi as int,
                        ea,
                        eb,
                        bad@.len() as int,
                    ));
                }
                if !shared {
                    polygon.push((ea, eb));
                }
                proof {
                    assert(polygon@ =~= polygon_rec(triangles@, bad@, bi as int) + poly_edges_rec(
                        triangles@,
                        bad@,
                        bi as int,
                        e as int + 1,
                    ));
                }
                e = e + 1;
            }
            bi = bi + 1;
        }

        let mut kept: Vec<Triangle> = Vec::new();
        let mut ti: usize = 0;
        while ti < triangles.len()
            invariant
                ti <= triangles@.len(),
                triangles@ == tris0,
                kept@ == kept_rec(triangles@, bad@, ti as int),
                forall|m: int|
                    0 <= m < triangles@.len() ==> tri_vertices_ok(
                        #[trigger] triangles@[m],
                        i as int,
                        st as int,
                    ),
                i < st,
                forall|m: int|
                    0 <= m < kept@.len() ==> tri_vertices_ok(
                        #[trigger] kept@[m],
                        i as int,
                        st as int,
                    ),
            decreases triangles@.len() - ti,
        {
            let mut is_bad = false;
            let mut bj: usize = 0;
            while bj < bad.len()
                invariant
                    bj <= bad@.len(),
                    ti < triangles@.len(),
                    is_bad == (exists|j: int| 0 <= j < bj && (#[trigger] bad@[j]) == ti),
                decreases bad@.len() - bj,
            {
                if bad[bj] == ti {
                    is_bad = true;
                }
                bj = bj + 1;
            }
            proof {
                assert(is_bad == bad@.contains(ti));
            }
            if !is_bad {
                kept.push(triangles[ti]);
            }
            ti = ti + 1;
        }
        triangles = kept;

        let mut pi: usize = 0;
        while pi < polygon.len()
            invariant
                pi <= polygon@.len(),
                i < st,
                polygon@ == polygon_rec(tris0, bad@, bad@.len() as int),
                bad@ == bad_rec(tris0, gpts, gp, tris0.len() as int),
                gp == gpts[i as int],
                triangles@ == with_new_rec(
                    kept_rec(tris0, bad@, tris0.len() as int),
                    polygon@,
                    i,
                    pi as int,
                ),
                forall|m: int|
                    0 <= m < polygon@.len() ==> {
                        let (a, b) = #[trigger] polygon@[m];
                        &&& a != b
                        &&& a != i && b != i
                        &&& (a < i || st <= a < st + 3)
                        &&& (b < i || st <= b < st + 3)
                    },
                forall|m: int|
                    0 <= m < triangles@.len() ==> tri_vertices_ok(
                        #[trigger] triangles@[m],
                        i as int + 1,
                        st as int,
                    ),
            decreases polygon@.len() - pi,
        {
            let (a, b) = polygon[pi];
            triangles.push(Triangle { p1: a, p2: b, p3: i });
            pi = pi + 1;
        }

        proof {
            assert(forall|m: int|
                0 <= m < triangles@.len() ==> tri_vertices_ok(
                    #[trigger] triangles@[m],
                    i as int + 1,
                    st as int,
                ));
            assert(triangles@ == step_spec(tris0, gpts, i));
            assert(triangles@ == insert_rec(gpts, st, i as int + 1));
        }
        i = i + 1;
    }

    let ghost tris_done = triangles@;
    let mut finals: Vec<Triangle> = Vec::new();
    let mut ti: usize = 0;
    while ti < triangles.len()
        invariant
            ti <= triangles@.len(),
            st == seeds@.len(),
            triangles@ == tris_done,
            tris_done == insert_rec(gpts, st, st as int),
            finals@ == finals_rec(triangles@, st, ti as int),
            forall|m: int|
                0 <= m < triangles@.len() ==> tri_vertices_ok(
                    #[trigger] triangles@[m],
                    st as int,
                    st as int,
                ),
            forall|m: int|
                0 <= m < finals@.len() ==> {
                    let t = #[trigger] finals@[m];
                    &&& t.p1 < st && t.p2 < st && t.p3 < st
                    &&& t.p1 != t.p2 && t.p2 != t.p3 && t.p1 != t.p3
                },
        decreases triangles@.len() - ti,
    {
        let t = triangles[ti];
        if t.p1 < st && t.p2 < st && t.p3 < st {
            finals.push(t);
        }
        ti = ti + 1;
    }

    let mut ti: usize = 0;
    while ti < finals.len()
        invariant
            ti <= finals@.len(),
            st == seeds@.len(),
            edges@ == dedup_rec(finals@, seeds@, ti as int),
            forall|m: int|
                0 <= m < finals@.len() ==> {
                    let t = #[trigger] finals@[m];
                    &&& t.p1 < st && t.p2 < st && t.p3 < st
                    &&& t.p1 != t.p2 && t.p2 != t.p3 && t.p1 != t.p3
                },
            forall|k: int| 0 <= k < edges@.len() ==> edge_wf(#[trigger] edges@[k], seeds@),
            forall|k: int, l: int|
                0 <= k < l < edges@.len() ==> !((#[trigger] edges@[k]).a == (
                #[trigger] edges@[l]).a && edges@[k].b == edges@[l].b),
        decreases finals@.len() - ti,
    {
        let t = finals[ti];
        let mut e: usize = 0;
        while e < 3
            invariant
                e <= 3,
                ti < finals@.len(),
                st == seeds@.len(),
                t == finals@[ti as int],
                edges@ == dedup_tri_rec(
                    dedup_rec(finals@, seeds@, ti as int),
                    t,
                    seeds@,
                    e as int,
                ),
                t.p1 < st && t.p2 < st && t.p3 < st,
                t.p1 != t.p2 && t.p2 != t.p3 && t.p1 != t.p3,
                forall|k: int| 0 <= k < edges@.len() ==> edge_wf(#[trigger] edges@[k], seeds@),
                forall|k: int, l: int|
                    0 <= k < l < edges@.len() ==> !((#[trigger] edges@[k]).a == (
                    #[trigger] edges@[l]).a && edges@[k].b == edges@[l].b),
            decreases 3 - e,
        {
            let (ea, eb): (usize, usize) = if e == 0 {
                (t.p1, t.p2)
            } else if e == 1 {
                (t.p2, t.p3)
            } else {
                (t.p3, t.p1)
            };
            let (lo, hi): (usize, usize) = if ea < eb {
                (ea, eb)
            } else {
                (eb, ea)
            };
            proof {
                assert((lo, hi) == canon_pair(t, e as int));
            }
            let present = contains_pair(&edges, lo, hi);
            proof {
                assert(present == has_pair(edges@, lo, hi));
            }
            if !present {
                edges.push(
                    Edge {
                        a: lo,
                        b: hi,
                        x1: seeds[lo].x,
                        y1: seeds[lo].y,
                        x2: seeds[hi].x,
                        y2: seeds[hi].y,
                    },
                );
            }
            e = e + 1;
        }
        ti = ti + 1;
    }
    proof {
        assert(edges@ == delaunay_edges_spec(seeds@, width as int, height as int));
    }
    edges
}

} // verus!
