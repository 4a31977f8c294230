//! Fixed-point plane geometry: bounded coordinates and squared distances.
//!
//! Every coordinate the engine handles stays within
//! `[-COORD_LIMIT, COORD_LIMIT]` and every query radius within
//! `[0, RADIUS_LIMIT]`, so that a squared distance always fits in `i64`.

use vstd::prelude::*;

verus! {

/// Largest coordinate magnitude the engine accepts on either axis.
pub const COORD_LIMIT: i64 = 1_000_000_000;

/// Largest query radius the engine accepts.
pub const RADIUS_LIMIT: i64 = 2_000_000_000;

/// One indexed point: an entity identifier with its position at the moment
/// the spatial index snapshot was taken.
#[derive(Clone, Copy, PartialEq, Eq, Structural, Debug)]
pub struct KdPoint {
    pub id: u64,
    pub x: i64,
    pub y: i64,
}

pub open spec fn coord_ok(c: int) -> bool {
    -(COORD_LIMIT as int) <= c <= COORD_LIMIT as int
}

pub open spec fn pt_ok(p: KdPoint) -> bool {
    coord_ok(p.x as int) && coord_ok(p.y as int)
}

pub open spec fn radius_ok(r: int) -> bool {
    0 <= r <= RADIUS_LIMIT as int
}

/// Squared Euclidean distance between `(ax, ay)` and `(bx, by)`.
pub open spec fn dist_sq(ax: int, ay: int, bx: int, by: int) -> int {
    (ax - bx) * (ax - bx) + (ay - by) * (ay - by)
}

/// Whether point `p` lies within distance `r` of the centre `(cx, cy)`,
/// compared on squared distances.
pub open spec fn in_circle(p: KdPoint, cx: int, cy: int, r: int) -> bool {
    dist_sq(p.x as int, p.y as int, cx, cy) <= r * r
}

pub proof fn lemma_sq_nonneg(d: int)
    by (nonlinear_arith)
    ensures
        d * d >= 0,
{
}

/// A square is monotonic in the magnitude of its argument.
pub proof fn lemma_sq_mono(a: int, b: int)
    by (nonlinear_arith)
    requires
        0 <= a <= b,
    ensures
        a * a <= b * b,
{
}

/// A coordinate difference bounded in magnitude has a bounded square.
pub proof fn lemma_sq_abs_bound(d: int, b: int)
    by (nonlinear_arith)
    requires
        0 <= b,
        -b <= d <= b,
    ensures
        0 <= d * d <= b * b,
{
}

/// A difference whose magnitude exceeds `r` has a square above `r * r`:
/// the heart of every pruning step of the spatial index.
pub proof fn lemma_sq_far(d: int, r: int)
    by (nonlinear_arith)
    requires
        0 <= r,
        d > r || d < -r,
    ensures
        d * d > r * r,
{
}

/// Squaring forgets the sign.
pub proof fn lemma_sq_neg(d: int)
    by (nonlinear_arith)
    ensures
        d * d == (-d) * (-d),
{
}

/// One axis alone never overstates the full squared distance.
pub proof fn lemma_axis_le_dist(ax: int, ay: int, bx: int, by_: int)
    ensures
        (ax - bx) * (ax - bx) <= dist_sq(ax, ay, bx, by_),
        (ay - by_) * (ay - by_) <= dist_sq(ax, ay, bx, by_),
        dist_sq(ax, ay, bx, by_) >= 0,
{
    lemma_sq_nonneg(ax - bx);
    lemma_sq_nonneg(ay - by_);
}

/// Computes `dist_sq` on machine integers; the coordinate bounds keep every
/// intermediate value inside `i64`.
pub fn dist_sq_i64(ax: i64, ay: i64, bx: i64, by_: i64) -> (r: i64)
    requires
        coord_ok(ax as int),
        coord_ok(ay as int),
        coord_ok(bx as int),
        coord_ok(by_ as int),
    ensures
        r == dist_sq(ax as int, ay as int, bx as int, by_ as int),
        r >= 0,
{
    let dx = ax - bx;
    let dy = ay - by_;
    proof {
        lemma_sq_abs_bound(dx as int, 2 * COORD_LIMIT as int);
        lemma_sq_abs_bound(dy as int, 2 * COORD_LIMIT as int);
    }
    dx * dx + dy * dy
}

} // verus!
