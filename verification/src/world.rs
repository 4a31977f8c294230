//! The simulation world: one owned container holding the configuration, the
//! entity registry, the spatial index with its rebuild scheduler, the
//! population scheduler and the pending event stream.
//!
//! Each tick runs the fixed phase order: conditional index rebuild,
//! projectile aging, projectile collision resolution, enemy/player contact,
//! then enemy admission. Movement is applied by outside collaborators
//! through the position setters before the tick; events are drained once
//! per tick by the caller.

use vstd::prelude::*;

use crate::collision::{
    contacts_rel, lemma_health_after_bounds, projectile_pass, resolve_contacts,
    resolve_projectiles, touch_count,
};
use crate::config::{Config, ConfigError};
use crate::geom::{coord_ok, radius_ok, KdPoint};
use crate::kdtree::KdTree;
use crate::population::{count_alive, spawn_rel, PopulationScheduler};
use crate::rebuild::{rebuild_rel, RebuildScheduler};
use crate::registry::{
    age_projectiles, aged_rel, alive_count, lemma_alive_count_push, lemma_alive_count_update,
    Enemy, GameEvent, Player, Projectile, Registry, PLAYER_ID,
};

verus! {

pub struct World {
    pub cfg: Config,
    pub reg: Registry,
    pub index: KdTree,
    pub rebuild: RebuildScheduler,
    pub pop: PopulationScheduler,
    pub events: Vec<GameEvent>,
}

/// One tick's effect as the composition of its five phases in the fixed
/// order: conditional index rebuild from the pre-tick registry, projectile
/// aging, the projectile pass against the post-rebuild index, enemy/player
/// contact, then enemy admission. `reg_a`, `(reg_b, ev_b)` and
/// `(reg_c, ev_c)` are the intermediate registry and event states between
/// the phases; each conjunct is the exact relation of one phase.
pub open spec fn tick_rel(
    cfg: Config,
    dt_ms: u64,
    cands: Seq<(i64, i64)>,
    w0: World,
    w1: World,
    reg_a: Registry,
    reg_b: Registry,
    ev_b: Seq<GameEvent>,
    reg_c: Registry,
    ev_c: Seq<GameEvent>,
) -> bool {
    &&& rebuild_rel(cfg, w0.reg, dt_ms, w0.rebuild, w1.rebuild, w0.index, w1.index)
    &&& aged_rel(w0.reg, reg_a, dt_ms)
    &&& (exists|tr: Seq<Registry>, te: Seq<Seq<GameEvent>>|
        #[trigger] projectile_pass(cfg, w1.index, reg_a, w0.events@, reg_b, ev_b, tr, te))
    &&& contacts_rel(cfg, w1.index, reg_b, ev_b, reg_c, ev_c)
    &&& spawn_rel(cfg, cands, dt_ms, w0.pop, w1.pop, reg_c, w1.reg, ev_c, w1.events@)
}

impl World {
    pub open spec fn wf(self) -> bool {
        &&& self.cfg.valid()
        &&& self.reg.wf(self.cfg)
        &&& self.index.wf()
    }

    /// Creates the world after validating the configuration; refuses to run
    /// on a flawed one. The player starts at `(px, py)` with full health and
    /// an index built from the initial snapshot.
    pub fn new(cfg: Config, px: i64, py: i64) -> (r: Result<World, ConfigError>)
        requires
            cfg.valid() ==> cfg.pos_in_world(px as int, py as int),
        ensures
            match r {
                Ok(w) => {
                    &&& cfg.valid()
                    &&& w.wf()
                    &&& w.cfg == cfg
                    &&& w.reg.player == (Player {
                        x: px,
                        y: py,
                        health: cfg.player_max_health,
                        alive: true,
                    })
                    &&& w.reg.enemies@.len() == 0
                    &&& w.reg.projectiles@.len() == 0
                    &&& w.reg.next_id == PLAYER_ID + 1
                    &&& w.rebuild.acc_ms == 0
                    &&& w.pop.acc_ms == 0
                    &&& w.events@.len() == 0
                    &&& forall|q: KdPoint| #[trigger] w.index.has(q) <==> w.reg.snap_has(q)
                },
                Err(e) => !cfg.valid() && cfg.flaw() == Some(e),
            },
    {
        match cfg.check() {
            Err(e) => Err(e),
            Ok(()) => {
                let reg = Registry::new(&cfg, px, py);
                let mut index = KdTree::empty();
                let mut rebuild = RebuildScheduler::new();
                rebuild.rebuild_now(&cfg, &reg, &mut index);
                Ok(
                    World {
                        cfg,
                        reg,
                        index,
                        rebuild,
                        pop: PopulationScheduler::new(),
                        events: Vec::new(),
                    },
                )
            },
        }
    }

    /// Seeds one enemy at `(x, y)` with full health, if room remains under
    /// the capacity ceiling; admission through the population scheduler is
    /// the rate-limited path, this one is for collaborators that place
    /// enemies directly.
    pub fn add_enemy(&mut self, x: i64, y: i64) -> (r: Option<u64>)
        requires
            old(self).wf(),
            old(self).cfg.pos_in_world(x as int, y as int),
            old(self).reg.next_id < u64::MAX,
        ensures
            final(self).wf(),
            final(self).cfg == old(self).cfg,
            r is Some <==> alive_count(old(self).reg.enemies@) < old(self).cfg.enemy_capacity,
            match r {
                Some(id) => {
                    &&& id == old(self).reg.next_id
                    &&& final(self).reg.enemies@ == old(self).reg.enemies@.push(
                        Enemy {
                            id,
                            x,
                            y,
                            health: old(self).cfg.enemy_max_health,
                            alive: true,
                        },
                    )
                    &&& final(self).reg.next_id == old(self).reg.next_id + 1
                    &&& final(self).reg.player == old(self).reg.player
                    &&& final(self).reg.projectiles@ == old(self).reg.projectiles@
                    &&& final(self).index == old(self).index
                    &&& final(self).events@ == old(self).events@
                },
                None => *final(self) == *old(self),
            },
    {
        let count = count_alive(&self.reg.enemies);
        proof {
            crate::registry::lemma_alive_count_bounds(self.reg.enemies@);
        }
        if count < self.cfg.enemy_capacity {
            let e = Enemy { id: self.reg.next_id, x, y, health: self.cfg.enemy_max_health, alive: true };
            proof {
                lemma_alive_count_push(self.reg.enemies@, e);
            }
            self.reg.enemies.push(e);
            self.reg.next_id = self.reg.next_id + 1;
            Some(e.id)
        } else {
            None
        }
    }

    /// Launches one projectile at `(x, y)`; it lives until its time runs out
    /// or its first hit.
    pub fn add_projectile(&mut self, x: i64, y: i64, damage: u32, ttl_ms: u64, owner: u64) -> (id:
        u64)
        requires
            old(self).wf(),
            old(self).cfg.pos_in_world(x as int, y as int),
            ttl_ms > 0,
            old(self).reg.next_id < u64::MAX,
        ensures
            final(self).wf(),
            final(self).cfg == old(self).cfg,
            id == old(self).reg.next_id,
            final(self).reg.projectiles@ == old(self).reg.projectiles@.push(
                Projectile { id, x, y, damage, ttl_ms, owner, alive: true },
            ),
            final(self).reg.next_id == old(self).reg.next_id + 1,
            final(self).reg.player == old(self).reg.player,
            final(self).reg.enemies@ == old(self).reg.enemies@,
            final(self).index == old(self).index,
            final(self).events@ == old(self).events@,
    {
        let id = self.reg.next_id;
        self.reg.projectiles.push(Projectile { id, x, y, damage, ttl_ms, owner, alive: true });
        self.reg.next_id = self.reg.next_id + 1;
        id
    }

    /// Movement input from the outside collaborators: the player's current
    /// position this tick.
    pub fn set_player_position(&mut self, x: i64, y: i64)
        requires
            old(self).wf(),
            old(self).cfg.pos_in_world(x as int, y as int),
        ensures
            final(self).wf(),
            *final(self) == (World {
                reg: Registry { player: Player { x, y, ..old(self).reg.player }, ..old(self).reg },
                ..*old(self)
            }),
    {
        self.reg.player.x = x;
        self.reg.player.y = y;
    }

    /// Movement input for one enemy; reports whether the identifier named an
    /// enemy. The index keeps serving the position from its last snapshot
    /// until the next rebuild: bounded staleness, by design.
    pub fn set_enemy_position(&mut self, id: u64, x: i64, y: i64) -> (found: bool)
        requires
            old(self).wf(),
            old(self).cfg.pos_in_world(x as int, y as int),
        ensures
            final(self).wf(),
            final(self).cfg == old(self).cfg,
            found <==> exists|i: int|
                0 <= i < old(self).reg.enemies@.len() && (#[trigger] old(
                    self,
                ).reg.enemies@[i]).id == id,
            found ==> exists|i: int|
                {
                    &&& 0 <= i < old(self).reg.enemies@.len()
                    &&& (#[trigger] old(self).reg.enemies@[i]).id == id
                    &&& final(self).reg.enemies@ == old(self).reg.enemies@.update(
                        i,
                        Enemy { x, y, ..old(self).reg.enemies@[i] },
                    )
                },
            !found ==> *final(self) == *old(self),
            final(self).reg.player == old(self).reg.player,
            final(self).reg.projectiles@ == old(self).reg.projectiles@,
            final(self).index == old(self).index,
            final(self).events@ == old(self).events@,
    {
        let n = self.reg.enemies.len();
        let mut i: usize = 0;
        while i < n
            invariant
                old(self).wf(),
                old(self).cfg.pos_in_world(x as int, y as int),
                i <= n,
                n == self.reg.enemies@.len(),
                *self == *old(self),
                forall|k: int| 0 <= k < i ==> (#[trigger] self.reg.enemies@[k]).id != id,
            decreases n - i,
        {
            if self.reg.enemies[i].id == id {
                let ghost es0 = self.reg.enemies@;
                let mut e = self.reg.enemies[i];
                e.x = x;
                e.y = y;
                proof {
                    lemma_alive_count_update(es0, i as int, e);
                }
                self.reg.enemies[i] = e;
                proof {
                    assert(e == (Enemy { x, y, ..es0[i as int] }));
                    let ii = i as int;
                    assert(0 <= ii < es0.len() && es0[ii].id == id);
                }
                return true;
            }
            i += 1;
        }
        false
    }

    /// Rebuilds the spatial index immediately from the live registry and
    /// resets the staleness clock.
    pub fn rebuild_now(&mut self)
        requires
            old(self).wf(),
        ensures
            final(self).wf(),
            final(self).cfg == old(self).cfg,
            final(self).reg == old(self).reg,
            final(self).events@ == old(self).events@,
            final(self).rebuild.acc_ms == 0,
            forall|q: KdPoint| #[trigger] final(self).index.has(q) <==> old(self).reg.snap_has(q),
    {
        self.rebuild.rebuild_now(&self.cfg, &self.reg, &mut self.index);
    }

    /// Read-only proximity query against the current index snapshot:
    /// exactly the identifiers the snapshot holds within `r` of the centre.
    pub fn range_query_ids(&self, cx: i64, cy: i64, r: i64) -> (res: Vec<u64>)
        requires
            self.wf(),
            coord_ok(cx as int),
            coord_ok(cy as int),
            radius_ok(r as int),
        ensures
            forall|id: u64|
                res@.contains(id) <==> self.index.id_in_range(cx as int, cy as int, r as int, id),
    {
        self.index.range_query(cx, cy, r)
    }

    /// Nearest indexed entity to `(cx, cy)`; `None` exactly on an empty
    /// snapshot, ties broken by identifier order.
    pub fn nearest_id(&self, cx: i64, cy: i64) -> (res: Option<u64>)
        requires
            self.wf(),
            coord_ok(cx as int),
            coord_ok(cy as int),
        ensures
            res is None <==> self.index.is_empty_index(),
            match res {
                None => true,
                Some(id) => exists|p: KdPoint|
                    #[trigger] self.index.is_nearest(cx as int, cy as int, p) && p.id == id,
            },
    {
        self.index.nearest(cx, cy)
    }

    /// One simulation tick over `dt_ms` elapsed milliseconds, in the fixed
    /// phase order; `spawn_candidates` are the sampled positions offered to
    /// the population scheduler. The phases are the public functions of the
    /// collision and scheduler modules, each with its own exact contract;
    /// here: the invariant holds afterwards, the capacity ceiling stands,
    /// the configuration and the player's position never change, and events
    /// are only ever appended.
    pub fn tick(&mut self, dt_ms: u64, spawn_candidates: &Vec<(i64, i64)>)
        requires
            old(self).wf(),
            old(self).rebuild.acc_ms + dt_ms <= u64::MAX,
            old(self).pop.acc_ms + dt_ms <= u64::MAX,
            old(self).reg.next_id + old(self).cfg.enemy_capacity <= u64::MAX,
        ensures
            final(self).wf(),
            final(self).cfg == old(self).cfg,
            final(self).reg.player.x == old(self).reg.player.x,
            final(self).reg.player.y == old(self).reg.player.y,
            final(self).reg.player.health <= old(self).reg.player.health,
            alive_count(final(self).reg.enemies@) <= old(self).cfg.enemy_capacity,
            final(self).events@.len() >= old(self).events@.len(),
            forall|i: int|
                0 <= i < old(self).events@.len() ==> final(self).events@[i] == old(
                    self,
                ).events@[i],
            old(self).rebuild.acc_ms + dt_ms >= old(self).cfg.rebuild_interval_ms
                ==> forall|q: KdPoint|
                #[trigger] final(self).index.has(q) <==> old(self).reg.snap_has(q),
            old(self).rebuild.acc_ms + dt_ms < old(self).cfg.rebuild_interval_ms
                ==> final(self).index == old(self).index,
            exists|reg_a: Registry, reg_b: Registry, ev_b: Seq<GameEvent>, reg_c: Registry, ev_c: Seq<GameEvent>|
                #[trigger] tick_rel(
                    old(self).cfg,
                    dt_ms,
                    spawn_candidates@,
                    *old(self),
                    *final(self),
                    reg_a,
                    reg_b,
                    ev_b,
                    reg_c,
                    ev_c,
                ),
    {
        self.rebuild.tick(dt_ms, &self.cfg, &self.reg, &mut self.index);
        age_projectiles(&mut self.reg, &self.cfg, dt_ms);
        let ghost reg_a = self.reg;
        resolve_projectiles(&self.cfg, &self.index, &mut self.reg, &mut self.events);
        let ghost reg_b = self.reg;
        let ghost ev_b = self.events@;
        resolve_contacts(&self.cfg, &self.index, &mut self.reg, &mut self.events);
        proof {
            if reg_b.player.alive {
                lemma_health_after_bounds(
                    reg_b.player.health as int,
                    self.cfg.enemy_contact_damage,
                    touch_count(
                        self.cfg,
                        self.index,
                        reg_b.player,
                        reg_b.enemies@,
                        reg_b.enemies@.len() as int,
                    ),
                );
            }
        }
        let ghost reg_c = self.reg;
        let ghost ev_c = self.events@;
        self.pop.tick(dt_ms, &self.cfg, &mut self.reg, spawn_candidates, &mut self.events);
        proof {
            assert(tick_rel(
                old(self).cfg,
                dt_ms,
                spawn_candidates@,
                *old(self),
                *self,
                reg_a,
                reg_b,
                ev_b,
                reg_c,
                ev_c,
            ));
        }
    }

    /// Hands the pending events over and leaves the stream empty: the
    /// per-tick drain.
    pub fn drain_events(&mut self) -> (out: Vec<GameEvent>)
        ensures
            out@ == old(self).events@,
            final(self).events@.len() == 0,
            final(self).cfg == old(self).cfg,
            final(self).reg == old(self).reg,
            final(self).index == old(self).index,
            final(self).rebuild == old(self).rebuild,
            final(self).pop == old(self).pop,
    {
        let mut out: Vec<GameEvent> = Vec::new();
        let n = self.events.len();
        let mut i: usize = 0;
        while i < n
            invariant
                i <= n,
                n == self.events@.len(),
                out@ == self.events@.subrange(0, i as int),
                *self == *old(self),
            decreases n - i,
        {
            out.push(self.events[i]);
            proof {
                assert(out@ =~= self.events@.subrange(0, i + 1 as int));
            }
            i += 1;
        }
        proof {
            assert(out@ =~= self.events@);
        }
        self.events.clear();
        out
    }

    /// Read-only view of the player for rendering collaborators.
    pub fn player(&self) -> (p: &Player)
        ensures
            *p == self.reg.player,
    {
        &self.reg.player
    }

    /// Read-only iteration over the enemies for rendering collaborators;
    /// entries with `alive` false are gone from the active set.
    pub fn enemies(&self) -> (es: &Vec<Enemy>)
        ensures
            es@ == self.reg.enemies@,
    {
        &self.reg.enemies
    }

    /// Read-only iteration over the projectiles for rendering collaborators.
    pub fn projectiles(&self) -> (ps: &Vec<Projectile>)
        ensures
            ps@ == self.reg.projectiles@,
    {
        &self.reg.projectiles
    }

    pub fn player_health(&self) -> (h: u32)
        ensures
            h == self.reg.player.health,
    {
        self.reg.player.health
    }

    pub fn player_alive(&self) -> (a: bool)
        ensures
            a == self.reg.player.alive,
    {
        self.reg.player.alive
    }

    /// How many enemies are currently alive.
    pub fn alive_enemies(&self) -> (c: usize)
        ensures
            c == alive_count(self.reg.enemies@),
    {
        count_alive(&self.reg.enemies)
    }

    /// The health of the enemy carrying `id`, dead or alive; `None` exactly
    /// when no enemy carries it.
    pub fn enemy_health(&self, id: u64) -> (r: Option<u32>)
        ensures
            match r {
                Some(h) => exists|i: int|
                    0 <= i < self.reg.enemies@.len() && (#[trigger] self.reg.enemies@[i]).id == id
                        && self.reg.enemies@[i].health == h,
                None => forall|i: int|
                    0 <= i < self.reg.enemies@.len() ==> (#[trigger] self.reg.enemies@[i]).id
                        != id,
            },
    {
        let n = self.reg.enemies.len();
        let mut i: usize = 0;
        while i < n
            invariant
                i <= n,
                n == self.reg.enemies@.len(),
                forall|k: int| 0 <= k < i ==> (#[trigger] self.reg.enemies@[k]).id != id,
            decreases n - i,
        {
            if self.reg.enemies[i].id == id {
                return Some(self.reg.enemies[i].health);
            }
            i += 1;
        }
        None
    }

    /// Whether the projectile carrying `id` is still in flight; `None`
    /// exactly when no projectile carries it.
    pub fn projectile_alive(&self, id: u64) -> (r: Option<bool>)
        ensures
            match r {
                Some(a) => exists|i: int|
                    0 <= i < self.reg.projectiles@.len() && (#[trigger] self.reg.projectiles@[i]).id
                        == id && self.reg.projectiles@[i].alive == a,
                None => forall|i: int|
                    0 <= i < self.reg.projectiles@.len() ==> (#[trigger] self.reg.projectiles@[i]).id
                        != id,
            },
    {
        let n = self.reg.projectiles.len();
        let mut i: usize = 0;
        while i < n
            invariant
                i <= n,
                n == self.reg.projectiles@.len(),
                forall|k: int| 0 <= k < i ==> (#[trigger] self.reg.projectiles@[k]).id != id,
            decreases n - i,
        {
            if self.reg.projectiles[i].id == id {
                return Some(self.reg.projectiles[i].alive);
            }
            i += 1;
        }
        None
    }
}

} // verus!
