//! The spatial index: a k-d tree over entity positions.
//!
//! The tree is built once from a snapshot of `(id, x, y)` points and then
//! queried read-only. `range_query` returns exactly the identifiers of the
//! snapshot points within a radius of a centre, and `nearest` returns a
//! point of minimal distance with ties broken towards the smaller
//! identifier, whatever shape the tree took.

use vstd::prelude::*;

use crate::geom::{
    coord_ok, dist_sq, dist_sq_i64, in_circle, lemma_axis_le_dist, lemma_sq_abs_bound,
    lemma_sq_far, lemma_sq_mono, lemma_sq_neg, pt_ok, radius_ok, KdPoint, COORD_LIMIT,
    RADIUS_LIMIT,
};

verus! {

broadcast use
    vstd::seq_lib::lemma_seq_contains_after_push,
    vstd::seq_lib::lemma_seq_subrange_elements,
    vstd::seq_lib::to_multiset_remove,
    vstd::seq_lib::to_multiset_build,
    vstd::seq_lib::to_multiset_contains,
    vstd::multiset::group_multiset_axioms,
;

/// Sortedness under the node ordering of one axis.
pub open spec fn sorted_by_key(s: Seq<KdPoint>, axis_x: bool) -> bool {
    forall|i: int, j: int| 0 <= i <= j < s.len() ==> #[trigger] key_le(s[i], s[j], axis_x)
}

fn key_le_exec(a: &KdPoint, b: &KdPoint, axis_x: bool) -> (r: bool)
    ensures
        r == key_le(*a, *b, axis_x),
{
    let ac = if axis_x {
        a.x
    } else {
        a.y
    };
    let bc = if axis_x {
        b.x
    } else {
        b.y
    };
    ac < bc || (ac == bc && a.id <= b.id)
}

fn min_index(v: &Vec<KdPoint>, axis_x: bool) -> (m: usize)
    requires
        v@.len() > 0,
    ensures
        m < v@.len(),
        forall|j: int| 0 <= j < v@.len() ==> key_le(v@[m as int], #[trigger] v@[j], axis_x),
{
    let mut m: usize = 0;
    let mut i: usize = 1;
    while i < v.len()
        invariant
            m < i <= v@.len(),
            forall|j: int| 0 <= j < i ==> key_le(v@[m as int], #[trigger] v@[j], axis_x),
        decreases v@.len() - i,
    {
        if key_le_exec(&v[i], &v[m], axis_x) {
            m = i;
        }
        i += 1;
    }
    m
}

fn vec_contains_id(ids: &Vec<u64>, id: u64) -> (r: bool)
    ensures
        r == ids@.contains(id),
{
    let mut i: usize = 0;
    while i < ids.len()
        invariant
            i <= ids@.len(),
            forall|k: int| 0 <= k < i ==> ids@[k] != id,
        decreases ids@.len() - i,
    {
        if ids[i] == id {
            assert(ids@[i as int] == id);
            return true;
        }
        i += 1;
    }
    false
}

proof fn lemma_push_keeps_no_dup(s: Seq<u64>, x: u64)
    requires
        s.no_duplicates(),
        !s.contains(x),
    ensures
        s.push(x).no_duplicates(),
{
    assert forall|i: int, j: int|
        0 <= i < s.push(x).len() && 0 <= j < s.push(x).len() && i != j implies s.push(x)[i]
        != s.push(x)[j] by {
        if i == s.len() {
            assert(s.push(x)[j] == s[j]);
            if s[j] == x {
                assert(s.contains(x));
            }
        } else if j == s.len() {
            assert(s.push(x)[i] == s[i]);
            if s[i] == x {
                assert(s.contains(x));
            }
        }
    }
}

/// Selection sort into a fresh vector: same points, ordered by the axis key.
fn sort_points(v: Vec<KdPoint>, axis_x: bool) -> (out: Vec<KdPoint>)
    ensures
        sorted_by_key(out@, axis_x),
        out@.len() == v@.len(),
        out@.to_multiset() == v@.to_multiset(),
        forall|q: KdPoint| out@.contains(q) <==> v@.contains(q),
{
    let ghost orig = v@;
    let mut rest = v;
    let mut out: Vec<KdPoint> = Vec::new();
    while rest.len() > 0
        invariant
            out@.len() + rest@.len() == orig.len(),
            out@.to_multiset().add(rest@.to_multiset()) == orig.to_multiset(),
            sorted_by_key(out@, axis_x),
            forall|i: int, j: int|
                #![trigger out@[i], rest@[j]]
                0 <= i < out@.len() && 0 <= j < rest@.len() ==> key_le(out@[i], rest@[j], axis_x),
        decreases rest@.len(),
    {
        let ghost out0 = out@;
        let ghost rest0 = rest@;
        let m = min_index(&rest, axis_x);
        let p = rest.remove(m);
        out.push(p);
        proof {
            rest0.remove_ensures(m as int);
            assert(rest0.contains(p)) by {
                assert(rest0[m as int] == p);
            }
            assert(rest0.to_multiset().count(p) > 0);
            assert(rest@.to_multiset() == rest0.to_multiset().remove(p));
            assert(out@.to_multiset() == out0.to_multiset().insert(p));
            assert(out@.to_multiset().add(rest@.to_multiset()) =~= orig.to_multiset());
            assert forall|i: int, j: int|
                #![trigger out@[i], rest@[j]]
                0 <= i < out@.len() && 0 <= j < rest@.len() implies key_le(
                out@[i],
                rest@[j],
                axis_x,
            ) by {
                let rj = if j < m as int {
                    j
                } else {
                    j + 1
                };
                assert(rest@[j] == rest0[rj]);
                assert(key_le(p, rest0[rj], axis_x));
                if i < out0.len() {
                    assert(out@[i] == out0[i]);
                    assert(key_le(out0[i], rest0[rj], axis_x));
                } else {
                    assert(out@[i] == p);
                }
            }
            assert forall|i: int, j: int| 0 <= i <= j < out@.len() implies #[trigger] key_le(
                out@[i],
                out@[j],
                axis_x,
            ) by {
                if j < out0.len() {
                    assert(key_le(out0[i], out0[j], axis_x));
                } else {
                    assert(out@[j] == p);
                    if i < out0.len() {
                        assert(key_le(out0[i], rest0[m as int], axis_x));
                    }
                }
            }
        }
    }
    proof {
        assert forall|q: KdPoint| out@.contains(q) <==> orig.contains(q) by {
            assert(out@.to_multiset() =~= orig.to_multiset());
            assert(out@.contains(q) <==> out@.to_multiset().count(q) > 0);
            assert(orig.contains(q) <==> orig.to_multiset().count(q) > 0);
        }
    }
    out
}

/// Coordinate of `p` along the splitting axis.
pub open spec fn axis_coord(p: KdPoint, axis_x: bool) -> int {
    if axis_x {
        p.x as int
    } else {
        p.y as int
    }
}

/// Ordering a node imposes on its subtrees: splitting-axis coordinate first,
/// identifier as the deterministic tie-break.
pub open spec fn key_le(a: KdPoint, b: KdPoint, axis_x: bool) -> bool {
    axis_coord(a, axis_x) < axis_coord(b, axis_x) || (axis_coord(a, axis_x) == axis_coord(
        b,
        axis_x,
    ) && a.id <= b.id)
}

/// The candidate order of the nearest-neighbour search: nearer to `(cx, cy)`
/// wins, a tie on distance goes to the smaller identifier.
pub open spec fn nearer_eq(cx: int, cy: int, a: KdPoint, b: KdPoint) -> bool {
    let da = dist_sq(a.x as int, a.y as int, cx, cy);
    let db = dist_sq(b.x as int, b.y as int, cx, cy);
    da < db || (da == db && a.id <= b.id)
}

pub enum KdTree {
    Leaf,
    Node { pt: KdPoint, axis_x: bool, left: Box<KdTree>, right: Box<KdTree> },
}

impl KdTree {
    /// The set of snapshot points the index holds.
    pub open spec fn has(self, q: KdPoint) -> bool
        decreases self,
    {
        match self {
            KdTree::Leaf => false,
            KdTree::Node { pt, axis_x, left, right } => q == pt || left.has(q) || right.has(q),
        }
    }

    /// Well-formedness: every point is within the coordinate bounds and every
    /// node separates its subtrees along its own axis.
    pub open spec fn wf(self) -> bool
        decreases self,
    {
        match self {
            KdTree::Leaf => true,
            KdTree::Node { pt, axis_x, left, right } => {
                &&& pt_ok(pt)
                &&& left.wf()
                &&& right.wf()
                &&& forall|q: KdPoint| left.has(q) ==> #[trigger] key_le(q, pt, axis_x)
                &&& forall|q: KdPoint| right.has(q) ==> #[trigger] key_le(pt, q, axis_x)
            },
        }
    }

    pub open spec fn is_empty_index(self) -> bool {
        self is Leaf
    }

    /// Whether some point with identifier `id` lies within distance `r` of
    /// `(cx, cy)`: the exact answer a range query owes.
    pub open spec fn id_in_range(self, cx: int, cy: int, r: int, id: u64) -> bool {
        exists|q: KdPoint| #[trigger] self.has(q) && q.id == id && in_circle(q, cx, cy, r)
    }

    /// Returns an explicitly empty index, which answers every query with no
    /// results.
    pub fn empty() -> (t: KdTree)
        ensures
            t.wf(),
            t.is_empty_index(),
            forall|q: KdPoint| !(#[trigger] t.has(q)),
    {
        KdTree::Leaf
    }

    /// Builds the index from a snapshot of `(id, x, y)` points, splitting the
    /// sorted point set at its median along alternating axes, ties broken by
    /// identifier. An empty input yields the explicitly empty index; the
    /// resulting tree holds exactly the input points.
    pub fn build(points: Vec<KdPoint>) -> (t: KdTree)
        requires
            forall|i: int| 0 <= i < points@.len() ==> pt_ok(#[trigger] points@[i]),
        ensures
            t.wf(),
            forall|q: KdPoint| #[trigger] t.has(q) <==> points@.contains(q),
            t.is_empty_index() <==> points@.len() == 0,
    {
        KdTree::build_rec(points, true)
    }

    fn build_rec(points: Vec<KdPoint>, axis_x: bool) -> (t: KdTree)
        requires
            forall|i: int| 0 <= i < points@.len() ==> pt_ok(#[trigger] points@[i]),
        ensures
            t.wf(),
            forall|q: KdPoint| #[trigger] t.has(q) <==> points@.contains(q),
            t.is_empty_index() <==> points@.len() == 0,
        decreases points@.len(),
    {
        if points.len() == 0 {
            return KdTree::Leaf;
        }
        let ghost orig = points@;
        let sorted = sort_points(points, axis_x);
        proof {
            assert forall|i: int| 0 <= i < sorted@.len() implies pt_ok(#[trigger] sorted@[i]) by {
                assert(sorted@.contains(sorted@[i]));
                assert(orig.contains(sorted@[i]));
                let ix = choose|ix: int| 0 <= ix < orig.len() && orig[ix] == sorted@[i];
            }
        }
        let mid = sorted.len() / 2;
        let pivot = sorted[mid];
        let len = sorted.len();

        let mut leftv: Vec<KdPoint> = Vec::new();
        let mut i: usize = 0;
        while i < mid
            invariant
                i <= mid < sorted@.len(),
                leftv@ == sorted@.subrange(0, i as int),
            decreases mid - i,
        {
            leftv.push(sorted[i]);
            proof {
                assert(leftv@ =~= sorted@.subrange(0, i + 1 as int));
            }
            i += 1;
        }

        let mut rightv: Vec<KdPoint> = Vec::new();
        let mut j: usize = mid + 1;
        while j < len
            invariant
                mid < sorted@.len() == len,
                mid + 1 <= j <= len,
                rightv@ == sorted@.subrange(mid + 1 as int, j as int),
            decreases len - j,
        {
            rightv.push(sorted[j]);
            proof {
                assert(rightv@ =~= sorted@.subrange(mid + 1 as int, j + 1 as int));
            }
            j += 1;
        }

        proof {
            assert forall|k: int| 0 <= k < leftv@.len() implies pt_ok(#[trigger] leftv@[k]) by {
                assert(leftv@[k] == sorted@[k]);
            }
            assert forall|k: int| 0 <= k < rightv@.len() implies pt_ok(#[trigger] rightv@[k]) by {
                assert(rightv@[k] == sorted@[mid + 1 + k]);
            }
        }
        let lt = KdTree::build_rec(leftv, !axis_x);
        let rt = KdTree::build_rec(rightv, !axis_x);
        let t = KdTree::Node { pt: pivot, axis_x, left: Box::new(lt), right: Box::new(rt) };
        proof {
            assert forall|q: KdPoint| lt.has(q) implies #[trigger] key_le(q, pivot, axis_x) by {
                assert(leftv@.contains(q));
                let k = choose|k: int| 0 <= k < leftv@.len() && leftv@[k] == q;
                assert(sorted@[k] == q);
                assert(key_le(sorted@[k], sorted@[mid as int], axis_x));
            }
            assert forall|q: KdPoint| rt.has(q) implies #[trigger] key_le(pivot, q, axis_x) by {
                assert(rightv@.contains(q));
                let k = choose|k: int| 0 <= k < rightv@.len() && rightv@[k] == q;
                assert(sorted@[mid + 1 + k] == q);
                assert(key_le(sorted@[mid as int], sorted@[mid + 1 + k], axis_x));
            }
            assert forall|q: KdPoint| #[trigger] t.has(q) <==> orig.contains(q) by {
                assert(t.has(q) <==> (q == pivot || lt.has(q) || rt.has(q)));
                if q == pivot {
                    assert(sorted@.contains(q)) by {
                        assert(sorted@[mid as int] == q);
                    }
                }
                if sorted@.contains(q) {
                    let k = choose|k: int| 0 <= k < sorted@.len() && sorted@[k] == q;
                    if k < mid as int {
                        assert(leftv@[k] == q);
                        assert(leftv@.contains(q));
                    } else if k > mid as int {
                        assert(rightv@[k - (mid + 1)] == q);
                        assert(rightv@.contains(q));
                    }
                }
                if leftv@.contains(q) {
                    let k = choose|k: int| 0 <= k < leftv@.len() && leftv@[k] == q;
                    assert(sorted@[k] == q);
                    assert(sorted@.contains(q));
                }
                if rightv@.contains(q) {
                    let k = choose|k: int| 0 <= k < rightv@.len() && rightv@[k] == q;
                    assert(sorted@[mid + 1 + k] == q);
                    assert(sorted@.contains(q));
                }
            }
        }
        t
    }

    /// Answers "which entities lie within `r` of `(cx, cy)`" on the snapshot:
    /// exactly the identifiers of held points with squared distance to the
    /// centre at most `r * r`, whatever order the points were inserted in.
    pub fn range_query(&self, cx: i64, cy: i64, r: i64) -> (res: Vec<u64>)
        requires
            self.wf(),
            coord_ok(cx as int),
            coord_ok(cy as int),
            radius_ok(r as int),
        ensures
            forall|id: u64|
                res@.contains(id) <==> self.id_in_range(cx as int, cy as int, r as int, id),
            res@.no_duplicates(),
    {
        let mut out: Vec<u64> = Vec::new();
        self.range_into(cx, cy, r, &mut out);
        out
    }

    fn range_into(&self, cx: i64, cy: i64, r: i64, out: &mut Vec<u64>)
        requires
            self.wf(),
            coord_ok(cx as int),
            coord_ok(cy as int),
            radius_ok(r as int),
        ensures
            forall|id: u64|
                final(out)@.contains(id) <==> old(out)@.contains(id) || self.id_in_range(
                    cx as int,
                    cy as int,
                    r as int,
                    id,
                ),
            old(out)@.no_duplicates() ==> final(out)@.no_duplicates(),
        decreases *self,
    {
        match self {
            KdTree::Leaf => {
                assert(forall|id: u64| !self.id_in_range(cx as int, cy as int, r as int, id));
            },
            KdTree::Node { pt, axis_x, left, right } => {
                proof {
                    lemma_sq_abs_bound(r as int, RADIUS_LIMIT as int);
                }
                let d2 = dist_sq_i64(pt.x, pt.y, cx, cy);
                if d2 <= r * r {
                    if !vec_contains_id(out, pt.id) {
                        proof {
                            if out@.no_duplicates() {
                                lemma_push_keeps_no_dup(out@, pt.id);
                            }
                        }
                        out.push(pt.id);
                    }
                    assert(self.has(*pt));
                }
                let c = if *axis_x {
                    cx
                } else {
                    cy
                };
                let pc = if *axis_x {
                    pt.x
                } else {
                    pt.y
                };
                if c - r <= pc {
                    left.range_into(cx, cy, r, out);
                } else {
                    proof {
                        assert forall|q: KdPoint| left.has(q) implies !in_circle(
                            q,
                            cx as int,
                            cy as int,
                            r as int,
                        ) by {
                            assert(key_le(q, *pt, *axis_x));
                            let qc = axis_coord(q, *axis_x);
                            lemma_sq_far(qc - c as int, r as int);
                            lemma_axis_le_dist(q.x as int, q.y as int, cx as int, cy as int);
                        }
                        assert(forall|id: u64|
                            !left.id_in_range(cx as int, cy as int, r as int, id));
                    }
                }
                if c + r >= pc {
                    right.range_into(cx, cy, r, out);
                } else {
                    proof {
                        assert forall|q: KdPoint| right.has(q) implies !in_circle(
                            q,
                            cx as int,
                            cy as int,
                            r as int,
                        ) by {
                            assert(key_le(*pt, q, *axis_x));
                            let qc = axis_coord(q, *axis_x);
                            lemma_sq_far(qc - c as int, r as int);
                            lemma_axis_le_dist(q.x as int, q.y as int, cx as int, cy as int);
                        }
                        assert(forall|id: u64|
                            !right.id_in_range(cx as int, cy as int, r as int, id));
                    }
                }
                proof {
                    assert forall|id: u64|
                        self.id_in_range(cx as int, cy as int, r as int, id) implies (pt.id == id
                        && in_circle(*pt, cx as int, cy as int, r as int)) || left.id_in_range(
                        cx as int,
                        cy as int,
                        r as int,
                        id,
                    ) || right.id_in_range(cx as int, cy as int, r as int, id) by {
                        let q = choose|q: KdPoint|
                            #[trigger] self.has(q) && q.id == id && in_circle(
                                q,
                                cx as int,
                                cy as int,
                                r as int,
                            );
                        if q == *pt {
                        } else if left.has(q) {
                            assert(left.id_in_range(cx as int, cy as int, r as int, id));
                        } else {
                            assert(right.has(q));
                            assert(right.id_in_range(cx as int, cy as int, r as int, id));
                        }
                    }
                    assert forall|q: KdPoint| left.has(q) || right.has(q) implies self.has(q) by {}
                }
            },
        }
    }

    /// What `nearest` owes: `p` is a held point that no held point beats,
    /// nearer points winning and a distance tie going to the smaller
    /// identifier.
    pub open spec fn is_nearest(self, cx: int, cy: int, p: KdPoint) -> bool {
        self.has(p) && forall|q: KdPoint| #[trigger] self.has(q) ==> nearer_eq(cx, cy, p, q)
    }

    /// Branch-and-bound nearest neighbour to `(cx, cy)`; `None` exactly on
    /// the empty index, otherwise the identifier of a held point of minimal
    /// distance, ties broken deterministically by identifier order.
    pub fn nearest(&self, cx: i64, cy: i64) -> (res: Option<u64>)
        requires
            self.wf(),
            coord_ok(cx as int),
            coord_ok(cy as int),
        ensures
            res is None <==> self.is_empty_index(),
            match res {
                None => forall|q: KdPoint| !(#[trigger] self.has(q)),
                Some(id) => exists|p: KdPoint|
                    #[trigger] self.is_nearest(cx as int, cy as int, p) && p.id == id,
            },
    {
        match self.nearest_rec(cx, cy, None) {
            None => None,
            Some(p) => {
                proof {
                    assert(self.is_nearest(cx as int, cy as int, p));
                }
                Some(p.id)
            },
        }
    }

    /// Keeps the better of an optional incumbent and a fresh candidate.
    fn better(cx: i64, cy: i64, best: Option<KdPoint>, p: KdPoint) -> (r: KdPoint)
        requires
            coord_ok(cx as int),
            coord_ok(cy as int),
            pt_ok(p),
            match best {
                Some(b) => pt_ok(b),
                None => true,
            },
        ensures
            pt_ok(r),
            r == p || best == Some(r),
            nearer_eq(cx as int, cy as int, r, p),
            match best {
                Some(b) => nearer_eq(cx as int, cy as int, r, b),
                None => true,
            },
    {
        match best {
            None => p,
            Some(b) => {
                let dp = dist_sq_i64(p.x, p.y, cx, cy);
                let db = dist_sq_i64(b.x, b.y, cx, cy);
                if dp < db || (dp == db && p.id <= b.id) {
                    p
                } else {
                    b
                }
            },
        }
    }

    fn nearest_rec(&self, cx: i64, cy: i64, best: Option<KdPoint>) -> (res: Option<KdPoint>)
        requires
            self.wf(),
            coord_ok(cx as int),
            coord_ok(cy as int),
            match best {
                Some(b) => pt_ok(b),
                None => true,
            },
        ensures
            res is None <==> (best is None && self.is_empty_index()),
            match res {
                None => true,
                Some(p) => {
                    &&& pt_ok(p)
                    &&& (best == Some(p) || self.has(p))
                    &&& match best {
                        Some(b) => nearer_eq(cx as int, cy as int, p, b),
                        None => true,
                    }
                    &&& forall|q: KdPoint|
                        #[trigger] self.has(q) ==> nearer_eq(cx as int, cy as int, p, q)
                },
            },
        decreases *self,
    {
        match self {
            KdTree::Leaf => best,
            KdTree::Node { pt, axis_x, left, right } => {
                let best1 = KdTree::better(cx, cy, best, *pt);
                proof {
                    assert(self.has(*pt));
                }
                let c = if *axis_x {
                    cx
                } else {
                    cy
                };
                let pc = if *axis_x {
                    pt.x
                } else {
                    pt.y
                };
                let near: &KdTree = if c <= pc {
                    left
                } else {
                    right
                };
                let far: &KdTree = if c <= pc {
                    right
                } else {
                    left
                };
                let b2 = match near.nearest_rec(cx, cy, Some(best1)) {
                    Some(b) => b,
                    None => best1,
                };
                let plane = c - pc;
                proof {
                    lemma_sq_abs_bound(plane as int, RADIUS_LIMIT as int);
                }
                let pd2 = plane * plane;
                let bd2 = dist_sq_i64(b2.x, b2.y, cx, cy);
                let out = if pd2 <= bd2 {
                    match far.nearest_rec(cx, cy, Some(b2)) {
                        Some(b) => b,
                        None => b2,
                    }
                } else {
                    proof {
                        assert forall|q: KdPoint| far.has(q) implies nearer_eq(
                            cx as int,
                            cy as int,
                            b2,
                            q,
                        ) by {
                            let qc = axis_coord(q, *axis_x);
                            let pci = if *axis_x {
                                pt.x as int
                            } else {
                                pt.y as int
                            };
                            if c <= pc {
                                assert(key_le(*pt, q, *axis_x));
                                lemma_sq_mono(pc as int - c as int, qc - c as int);
                            } else {
                                assert(key_le(q, *pt, *axis_x));
                                lemma_sq_mono(c as int - pc as int, c as int - qc);
                                lemma_sq_neg(qc - c as int);
                            }
                            lemma_sq_neg(plane as int);
                            lemma_axis_le_dist(q.x as int, q.y as int, cx as int, cy as int);
                        }
                    }
                    b2
                };
                proof {
                    assert forall|q: KdPoint| self.has(q) implies nearer_eq(
                        cx as int,
                        cy as int,
                        out,
                        q,
                    ) by {
                        if q == *pt {
                        } else if left.has(q) {
                        } else {
                            assert(right.has(q));
                        }
                    }
                }
                Some(out)
            },
        }
    }
}

/// Query answers depend on the held point set alone, never on tree shape:
/// two indexes over the same points — built from the same snapshot twice in
/// a row, or from the same points in different insertion orders — answer
/// every range query and every nearest-neighbour query identically.
pub proof fn lemma_same_points_same_answers(t1: KdTree, t2: KdTree)
    requires
        forall|q: KdPoint| t1.has(q) <==> #[trigger] t2.has(q),
    ensures
        forall|cx: int, cy: int, r: int, id: u64|
            #[trigger] t1.id_in_range(cx, cy, r, id) <==> #[trigger] t2.id_in_range(cx, cy, r, id),
        forall|cx: int, cy: int, p: KdPoint|
            #[trigger] t1.is_nearest(cx, cy, p) <==> #[trigger] t2.is_nearest(cx, cy, p),
{
    assert forall|cx: int, cy: int, r: int, id: u64|
        #[trigger] t1.id_in_range(cx, cy, r, id) <==> #[trigger] t2.id_in_range(
        cx,
        cy,
        r,
        id,
    ) by {
        if t1.id_in_range(cx, cy, r, id) {
            let q = choose|q: KdPoint| #[trigger] t1.has(q) && q.id == id && in_circle(q, cx, cy, r);
            assert(t2.has(q));
        }
        if t2.id_in_range(cx, cy, r, id) {
            let q = choose|q: KdPoint| #[trigger] t2.has(q) && q.id == id && in_circle(q, cx, cy, r);
            assert(t1.has(q));
        }
    }
    assert forall|cx: int, cy: int, p: KdPoint|
        #[trigger] t1.is_nearest(cx, cy, p) <==> #[trigger] t2.is_nearest(cx, cy, p) by {
        if t1.is_nearest(cx, cy, p) {
            assert forall|q: KdPoint| #[trigger] t2.has(q) implies nearer_eq(cx, cy, p, q) by {
                assert(t1.has(q));
            }
        }
        if t2.is_nearest(cx, cy, p) {
            assert forall|q: KdPoint| #[trigger] t1.has(q) implies nearer_eq(cx, cy, p, q) by {
                assert(t2.has(q));
            }
        }
    }
}

} // verus!
