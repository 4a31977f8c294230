//! The rebuild scheduler: accumulates elapsed time and, once the refresh
//! interval has passed, replaces the spatial index wholesale with one built
//! from the live registry. Between rebuilds the index is served read-only,
//! so queries may see positions up to one interval old; that staleness is
//! the deliberate trade of this design, never an inconsistency.

use vstd::prelude::*;

use crate::config::Config;
use crate::geom::KdPoint;
use crate::kdtree::{lemma_same_points_same_answers, KdTree};
use crate::registry::Registry;

verus! {

/// Rebuild idempotence: two indexes built from one unchanged registry
/// snapshot — as `rebuild_now` and `tick` leave them — hold the same points,
/// and therefore answer every range query and every nearest-neighbour query
/// identically.
pub proof fn lemma_rebuild_idempotent(reg: Registry, t1: KdTree, t2: KdTree)
    requires
        forall|q: KdPoint| #[trigger] t1.has(q) <==> reg.snap_has(q),
        forall|q: KdPoint| #[trigger] t2.has(q) <==> reg.snap_has(q),
    ensures
        forall|cx: int, cy: int, r: int, id: u64|
            #[trigger] t1.id_in_range(cx, cy, r, id) <==> #[trigger] t2.id_in_range(cx, cy, r, id),
        forall|cx: int, cy: int, p: KdPoint|
            #[trigger] t1.is_nearest(cx, cy, p) <==> #[trigger] t2.is_nearest(cx, cy, p),
{
    assert(forall|q: KdPoint| t1.has(q) <==> #[trigger] t2.has(q));
    lemma_same_points_same_answers(t1, t2);
}

pub struct RebuildScheduler {
    /// Time accumulated since the index was last built.
    pub acc_ms: u64,
}

/// What one rebuild-scheduler tick does: once the accumulated time reaches
/// the refresh interval the index becomes a fresh snapshot of `reg` and the
/// clock resets; otherwise only the clock advances and the index is
/// bit-for-bit the old one.
pub open spec fn rebuild_rel(
    cfg: Config,
    reg: Registry,
    dt_ms: u64,
    rb0: RebuildScheduler,
    rb1: RebuildScheduler,
    idx0: KdTree,
    idx1: KdTree,
) -> bool {
    if rb0.acc_ms + dt_ms >= cfg.rebuild_interval_ms {
        &&& rb1.acc_ms == 0
        &&& idx1.wf()
        &&& forall|q: KdPoint| #[trigger] idx1.has(q) <==> reg.snap_has(q)
    } else {
        &&& rb1.acc_ms == rb0.acc_ms + dt_ms
        &&& idx1 == idx0
    }
}

impl RebuildScheduler {
    pub fn new() -> (s: Self)
        ensures
            s.acc_ms == 0,
    {
        RebuildScheduler { acc_ms: 0 }
    }

    /// Builds a fresh index from the live registry snapshot and resets the
    /// staleness clock.
    pub fn rebuild_now(&mut self, cfg: &Config, reg: &Registry, index: &mut KdTree)
        requires
            cfg.valid(),
            reg.wf(*cfg),
        ensures
            final(self).acc_ms == 0,
            final(index).wf(),
            forall|q: KdPoint| #[trigger] final(index).has(q) <==> reg.snap_has(q),
    {
        let snap = reg.snapshot(cfg);
        *index = KdTree::build(snap);
        self.acc_ms = 0;
    }

    /// One tick of the scheduler: accumulate `dt_ms`; when the accumulated
    /// time reaches the refresh interval, rebuild synchronously from the
    /// registry and reset the accumulator, else leave the index untouched.
    pub fn tick(
        &mut self,
        dt_ms: u64,
        cfg: &Config,
        reg: &Registry,
        index: &mut KdTree,
    ) -> (rebuilt: bool)
        requires
            cfg.valid(),
            reg.wf(*cfg),
            old(self).acc_ms + dt_ms <= u64::MAX,
            old(index).wf(),
        ensures
            final(index).wf(),
            rebuilt == (old(self).acc_ms + dt_ms >= cfg.rebuild_interval_ms),
            rebuilt ==> final(self).acc_ms == 0,
            rebuilt ==> forall|q: KdPoint| #[trigger] final(index).has(q) <==> reg.snap_has(q),
            !rebuilt ==> final(self).acc_ms == old(self).acc_ms + dt_ms,
            !rebuilt ==> *final(index) == *old(index),
            rebuild_rel(*cfg, *reg, dt_ms, *old(self), *final(self), *old(index), *final(index)),
    {
        self.acc_ms = self.acc_ms + dt_ms;
        if self.acc_ms >= cfg.rebuild_interval_ms {
            self.rebuild_now(cfg, reg, index);
            true
        } else {
            false
        }
    }
}

} // verus!
