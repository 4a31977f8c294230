//! The enemy population scheduler: admits new enemies at a bounded rate up
//! to the capacity ceiling, as a function of elapsed time.
//!
//! The accumulated timer is decremented by one spawn interval per admission,
//! never reset, so several intervals elapsing within one long tick admit
//! several enemies, preserving the long-term spawn rate under variable tick
//! duration.

use vstd::prelude::*;

use crate::config::Config;
use crate::geom::{coord_ok, dist_sq, dist_sq_i64, lemma_sq_abs_bound, COORD_LIMIT};
use crate::registry::{
    alive_count, enemy_ok, lemma_alive_count_bounds, lemma_alive_count_push, Enemy, GameEvent,
    Registry,
};

verus! {

/// How many admissions a time budget affords: one per full spawn interval,
/// capped by the room left under the capacity ceiling.
pub open spec fn spawn_budget(acc: int, interval: int, room: int) -> int
    recommends
        interval > 0,
    decreases acc,
{
    if interval <= 0 || acc < interval || room <= 0 {
        0
    } else {
        1 + spawn_budget(acc - interval, interval, room - 1)
    }
}

pub proof fn lemma_spawn_budget_bounds(acc: int, interval: int, room: int)
    requires
        interval > 0,
    ensures
        0 <= spawn_budget(acc, interval, room),
        room >= 0 ==> spawn_budget(acc, interval, room) <= room,
    decreases acc,
{
    if !(acc < interval || room <= 0) {
        lemma_spawn_budget_bounds(acc - interval, interval, room - 1);
    }
}

/// Whether `(x, y)` is an admissible spawn position: within world bounds and
/// outside the exclusion circle around the player at `(px, py)`.
pub open spec fn spawn_pos_valid(cfg: Config, px: int, py: int, x: int, y: int) -> bool {
    &&& cfg.pos_in_world(x, y)
    &&& dist_sq(x, y, px, py) > cfg.spawn_exclusion_radius * cfg.spawn_exclusion_radius
}

/// Where the next spawn lands, scanning the sampled candidates from `from`:
/// the first admissible candidate, or the fixed world-edge fallback when the
/// candidates are exhausted. Returns the next unread cursor with the spot.
pub open spec fn pick_from(cands: Seq<(i64, i64)>, from: int, cfg: Config, px: int, py: int) -> (
    int,
    (i64, i64),
)
    decreases cands.len() - from,
{
    if !(0 <= from < cands.len()) {
        (if from < 0 {
            0int
        } else {
            cands.len() as int
        }, (cfg.world_half_w, 0i64))
    } else if spawn_pos_valid(cfg, px, py, cands[from].0 as int, cands[from].1 as int) {
        (from + 1, cands[from])
    } else {
        pick_from(cands, from + 1, cfg, px, py)
    }
}

/// The cursor into the candidate list after `s` admissions, each scan
/// starting where the previous one stopped.
pub open spec fn pick_cursor_after(
    cands: Seq<(i64, i64)>,
    cfg: Config,
    px: int,
    py: int,
    s: int,
) -> int
    decreases s,
{
    if s <= 0 {
        0
    } else {
        pick_from(cands, pick_cursor_after(cands, cfg, px, py, s - 1), cfg, px, py).0
    }
}

/// Where admission number `s` of a tick lands, counting from zero: the
/// first admissible candidate its scan reaches, or the fallback.
pub open spec fn pick_pos_at(
    cands: Seq<(i64, i64)>,
    cfg: Config,
    px: int,
    py: int,
    s: int,
) -> (i64, i64) {
    pick_from(cands, pick_cursor_after(cands, cfg, px, py, s), cfg, px, py).1
}

/// Scans the caller-sampled candidate positions for the next admissible
/// spawn spot; the list's length bounds the retries, and exhausting it
/// degrades to the deterministic world-edge fallback.
fn pick_spawn_pos(
    cands: &Vec<(i64, i64)>,
    cursor: usize,
    cfg: &Config,
    px: i64,
    py: i64,
) -> (r: (usize, (i64, i64)))
    requires
        cfg.valid(),
        coord_ok(px as int),
        coord_ok(py as int),
        cursor <= cands@.len(),
    ensures
        (r.0 as int, r.1) == pick_from(cands@, cursor as int, *cfg, px as int, py as int),
        cursor <= r.0 <= cands@.len(),
        cfg.pos_in_world(r.1.0 as int, r.1.1 as int),
        (cands@.contains(r.1) && spawn_pos_valid(*cfg, px as int, py as int, r.1.0 as int, r.1.1 as int))
            || (r.1.0 == cfg.world_half_w && r.1.1 == 0),
{
    let mut cur = cursor;
    loop
        invariant
            cfg.valid(),
            coord_ok(px as int),
            coord_ok(py as int),
            cursor <= cur <= cands@.len(),
            pick_from(cands@, cur as int, *cfg, px as int, py as int) == pick_from(
                cands@,
                cursor as int,
                *cfg,
                px as int,
                py as int,
            ),
        decreases cands@.len() - cur,
    {
        if cur >= cands.len() {
            return (cur, (cfg.world_half_w, 0i64));
        }
        let c = cands[cur];
        let cx = c.0;
        let cy = c.1;
        let in_world = -cfg.world_half_w <= cx && cx <= cfg.world_half_w && -cfg.world_half_h <= cy
            && cy <= cfg.world_half_h;
        if in_world {
            proof {
                lemma_sq_abs_bound(cfg.spawn_exclusion_radius as int, COORD_LIMIT as int);
            }
            let d2 = dist_sq_i64(cx, cy, px, py);
            if d2 > cfg.spawn_exclusion_radius * cfg.spawn_exclusion_radius {
                proof {
                    assert(cands@.contains(c)) by {
                        assert(cands@[cur as int] == c);
                    }
                }
                return (cur + 1, c);
            }
        }
        proof {
            assert(!spawn_pos_valid(*cfg, px as int, py as int, cx as int, cy as int));
        }
        cur += 1;
    }
}

pub struct PopulationScheduler {
    /// Time accumulated towards the next admission.
    pub acc_ms: u64,
}

/// What one population-scheduler tick does, from `(pop0, reg0, ev0)` to
/// `(pop1, reg1, ev1)`: exactly one admission per elapsed spawn interval
/// while room remains, the accumulator decremented accordingly, and each
/// admitted enemy appended with a fresh identifier, full health, its
/// scanned pick position, and a matching event.
pub open spec fn spawn_rel(
    cfg: Config,
    cands: Seq<(i64, i64)>,
    dt_ms: u64,
    pop0: PopulationScheduler,
    pop1: PopulationScheduler,
    reg0: Registry,
    reg1: Registry,
    ev0: Seq<GameEvent>,
    ev1: Seq<GameEvent>,
) -> bool {
    let s = spawn_budget(
        pop0.acc_ms + dt_ms,
        cfg.spawn_interval_ms as int,
        cfg.enemy_capacity - alive_count(reg0.enemies@),
    );
    &&& pop1.acc_ms == pop0.acc_ms + dt_ms - s * cfg.spawn_interval_ms
    &&& alive_count(reg1.enemies@) == alive_count(reg0.enemies@) + s
    &&& alive_count(reg1.enemies@) <= cfg.enemy_capacity
    &&& reg1.player == reg0.player
    &&& reg1.projectiles@ == reg0.projectiles@
    &&& reg1.next_id == reg0.next_id + s
    &&& reg1.enemies@.len() == reg0.enemies@.len() + s
    &&& forall|i: int| 0 <= i < reg0.enemies@.len() ==> reg1.enemies@[i] == reg0.enemies@[i]
    &&& ev1.len() == ev0.len() + s
    &&& forall|i: int| 0 <= i < ev0.len() ==> ev1[i] == ev0[i]
    &&& forall|k: int|
        0 <= k < s ==> {
            let e = #[trigger] reg1.enemies@[reg0.enemies@.len() + k];
            &&& e.alive
            &&& e.health == cfg.enemy_max_health
            &&& e.id == reg0.next_id + k
            &&& (e.x, e.y) == pick_pos_at(
                cands,
                cfg,
                reg0.player.x as int,
                reg0.player.y as int,
                k,
            )
            &&& ev1[ev0.len() + k] == (GameEvent::EnemySpawned { id: e.id, x: e.x, y: e.y })
        }
}

impl PopulationScheduler {
    pub fn new() -> (s: Self)
        ensures
            s.acc_ms == 0,
    {
        PopulationScheduler { acc_ms: 0 }
    }

    /// One tick of the scheduler. Admits exactly one enemy per elapsed spawn
    /// interval while room remains under the capacity ceiling: the alive
    /// count never decreases here and never exceeds capacity, whatever the
    /// tick durations. Each admitted enemy takes a fresh identifier, full
    /// health, and the first admissible sampled position (or the fixed
    /// fallback), and is announced with an event.
    pub fn tick(
        &mut self,
        dt_ms: u64,
        cfg: &Config,
        reg: &mut Registry,
        cands: &Vec<(i64, i64)>,
        events: &mut Vec<GameEvent>,
    ) -> (spawned: usize)
        requires
            cfg.valid(),
            old(reg).wf(*cfg),
            old(self).acc_ms + dt_ms <= u64::MAX,
            old(reg).next_id + cfg.enemy_capacity <= u64::MAX,
        ensures
            final(reg).wf(*cfg),
            spawned == spawn_budget(
                old(self).acc_ms + dt_ms,
                cfg.spawn_interval_ms as int,
                cfg.enemy_capacity - alive_count(old(reg).enemies@),
            ),
            final(self).acc_ms == old(self).acc_ms + dt_ms - spawned * cfg.spawn_interval_ms,
            alive_count(final(reg).enemies@) == alive_count(old(reg).enemies@) + spawned,
            alive_count(final(reg).enemies@) <= cfg.enemy_capacity,
            final(reg).player == old(reg).player,
            final(reg).projectiles == old(reg).projectiles,
            final(reg).next_id == old(reg).next_id + spawned,
            final(reg).enemies@.len() == old(reg).enemies@.len() + spawned,
            forall|i: int|
                0 <= i < old(reg).enemies@.len() ==> final(reg).enemies@[i] == old(
                    reg,
                ).enemies@[i],
            final(events)@.len() == old(events)@.len() + spawned,
            forall|i: int| 0 <= i < old(events)@.len() ==> final(events)@[i] == old(events)@[i],
            forall|k: int|
                0 <= k < spawned ==> {
                    let e = #[trigger] final(reg).enemies@[old(reg).enemies@.len() + k];
                    &&& e.alive
                    &&& e.health == cfg.enemy_max_health
                    &&& e.id == old(reg).next_id + k
                    &&& ((cands@.contains((e.x, e.y)) && spawn_pos_valid(
                        *cfg,
                        old(reg).player.x as int,
                        old(reg).player.y as int,
                        e.x as int,
                        e.y as int,
                    )) || (e.x == cfg.world_half_w && e.y == 0))
                    &&& (e.x, e.y) == pick_pos_at(
                        cands@,
                        *cfg,
                        old(reg).player.x as int,
                        old(reg).player.y as int,
                        k,
                    )
                    &&& final(events)@[old(events)@.len() + k] == (GameEvent::EnemySpawned {
                        id: e.id,
                        x: e.x,
                        y: e.y,
                    })
                },
            spawn_rel(
                *cfg,
                cands@,
                dt_ms,
                *old(self),
                *final(self),
                *old(reg),
                *final(reg),
                old(events)@,
                final(events)@,
            ),
    {
        let ghost total_ms = old(self).acc_ms + dt_ms as int;
        let ghost interval = cfg.spawn_interval_ms as int;
        let ghost reg0 = *reg;
        let ghost ev0 = events@;
        self.acc_ms = self.acc_ms + dt_ms;
        let count0 = count_alive(&reg.enemies);
        proof {
            lemma_alive_count_bounds(reg.enemies@);
        }
        let mut count = count0;
        let mut cursor: usize = 0;
        let mut spawned: usize = 0;
        while self.acc_ms >= cfg.spawn_interval_ms && count < cfg.enemy_capacity
            invariant
                cfg.valid(),
                reg.wf(*cfg),
                interval == cfg.spawn_interval_ms as int,
                reg0.next_id + cfg.enemy_capacity <= u64::MAX,
                count == alive_count(reg.enemies@),
                count <= cfg.enemy_capacity,
                count == count0 + spawned,
                self.acc_ms == total_ms - spawned * interval,
                spawned + spawn_budget(
                    self.acc_ms as int,
                    interval,
                    cfg.enemy_capacity - count,
                ) == spawn_budget(total_ms, interval, cfg.enemy_capacity - count0),
                reg.player == reg0.player,
                reg.projectiles == reg0.projectiles,
                reg.next_id == reg0.next_id + spawned,
                reg.enemies@.len() == reg0.enemies@.len() + spawned,
                forall|i: int| 0 <= i < reg0.enemies@.len() ==> reg.enemies@[i] == reg0.enemies@[i],
                events@.len() == ev0.len() + spawned,
                forall|i: int| 0 <= i < ev0.len() ==> events@[i] == ev0[i],
                cursor <= cands@.len(),
                cursor as int == pick_cursor_after(
                    cands@,
                    *cfg,
                    reg0.player.x as int,
                    reg0.player.y as int,
                    spawned as int,
                ),
                forall|k: int|
                    0 <= k < spawned ==> {
                        let e = #[trigger] reg.enemies@[reg0.enemies@.len() + k];
                        &&& e.alive
                        &&& e.health == cfg.enemy_max_health
                        &&& e.id == reg0.next_id + k
                        &&& ((cands@.contains((e.x, e.y)) && spawn_pos_valid(
                            *cfg,
                            reg0.player.x as int,
                            reg0.player.y as int,
                            e.x as int,
                            e.y as int,
                        )) || (e.x == cfg.world_half_w && e.y == 0))
                        &&& (e.x, e.y) == pick_pos_at(
                            cands@,
                            *cfg,
                            reg0.player.x as int,
                            reg0.player.y as int,
                            k,
                        )
                        &&& events@[ev0.len() + k] == (GameEvent::EnemySpawned {
                            id: e.id,
                            x: e.x,
                            y: e.y,
                        })
                    },
            decreases self.acc_ms,
        {
            let picked = pick_spawn_pos(cands, cursor, cfg, reg.player.x, reg.player.y);
            cursor = picked.0;
            let pos = picked.1;
            let ghost es0 = reg.enemies@;
            let e = Enemy {
                id: reg.next_id,
                x: pos.0,
                y: pos.1,
                health: cfg.enemy_max_health,
                alive: true,
            };
            reg.enemies.push(e);
            reg.next_id = reg.next_id + 1;
            events.push(GameEvent::EnemySpawned { id: e.id, x: e.x, y: e.y });
            self.acc_ms = self.acc_ms - cfg.spawn_interval_ms;
            proof {
                lemma_alive_count_push(es0, e);
                assert(enemy_ok(*cfg, e));
                assert((spawned + 1) * interval == spawned * interval + interval)
                    by (nonlinear_arith);
                let pxi = reg0.player.x as int;
                let pyi = reg0.player.y as int;
                assert(pick_cursor_after(cands@, *cfg, pxi, pyi, spawned + 1) == pick_from(
                    cands@,
                    pick_cursor_after(cands@, *cfg, pxi, pyi, spawned as int),
                    *cfg,
                    pxi,
                    pyi,
                ).0);
                assert((e.x, e.y) == pick_pos_at(cands@, *cfg, pxi, pyi, spawned as int));
            }
            count += 1;
            spawned += 1;
        }
        proof {
            assert(spawn_budget(self.acc_ms as int, interval, cfg.enemy_capacity - count) == 0);
        }
        spawned
    }
}

/// Counts the alive enemies.
pub fn count_alive(es: &Vec<Enemy>) -> (c: usize)
    ensures
        c == alive_count(es@),
{
    let mut c: usize = 0;
    let mut i: usize = 0;
    while i < es.len()
        invariant
            i <= es@.len(),
            c == alive_count(es@.subrange(0, i as int)),
            c <= i,
        decreases es@.len() - i,
    {
        proof {
            assert(es@.subrange(0, i + 1 as int).drop_last() =~= es@.subrange(0, i as int));
            assert(es@.subrange(0, i + 1 as int).last() == es@[i as int]);
        }
        if es[i].alive {
            c += 1;
        }
        i += 1;
    }
    proof {
        assert(es@.subrange(0, es@.len() as int) =~= es@);
    }
    c
}

} // verus!
