//! The entity registry: authoritative positions, health and liveness of the
//! player, the enemies and the in-flight projectiles, plus the event stream
//! the simulation emits for its collaborators.

use vstd::prelude::*;

use crate::config::Config;
use crate::geom::{pt_ok, KdPoint};

verus! {

broadcast use vstd::seq_lib::lemma_seq_contains_after_push;

/// The identifier the player holds in the spatial index; enemies always get
/// identifiers above it.
pub const PLAYER_ID: u64 = 0;

#[derive(Clone, Copy, PartialEq, Eq, Structural, Debug)]
pub struct Player {
    pub x: i64,
    pub y: i64,
    pub health: u32,
    pub alive: bool,
}

#[derive(Clone, Copy, PartialEq, Eq, Structural, Debug)]
pub struct Enemy {
    pub id: u64,
    pub x: i64,
    pub y: i64,
    pub health: u32,
    pub alive: bool,
}

#[derive(Clone, Copy, PartialEq, Eq, Structural, Debug)]
pub struct Projectile {
    pub id: u64,
    pub x: i64,
    pub y: i64,
    pub damage: u32,
    /// Remaining time to live; the projectile is removed exactly once, when
    /// this reaches zero or on its first hit.
    pub ttl_ms: u64,
    /// Identifier of the entity that fired it; never owning.
    pub owner: u64,
    pub alive: bool,
}

/// Events drained once per tick by the rendering and UI collaborators.
#[derive(Clone, Copy, PartialEq, Eq, Structural, Debug)]
pub enum GameEvent {
    EnemyKilled { id: u64, x: i64, y: i64 },
    PlayerDamaged { amount: u32, remaining: u32 },
    EnemySpawned { id: u64, x: i64, y: i64 },
    GameOver,
}

pub open spec fn enemy_ok(cfg: Config, e: Enemy) -> bool {
    &&& cfg.pos_in_world(e.x as int, e.y as int)
    &&& (e.health == 0 ==> !e.alive)
    &&& e.id != PLAYER_ID
}

pub open spec fn projectile_ok(cfg: Config, p: Projectile) -> bool {
    &&& cfg.pos_in_world(p.x as int, p.y as int)
    &&& (p.alive ==> p.ttl_ms > 0)
}

/// How many enemies of the sequence are alive.
pub open spec fn alive_count(es: Seq<Enemy>) -> int
    decreases es.len(),
{
    if es.len() == 0 {
        0
    } else {
        alive_count(es.drop_last()) + if es.last().alive {
            1int
        } else {
            0int
        }
    }
}

pub proof fn lemma_alive_count_bounds(es: Seq<Enemy>)
    ensures
        0 <= alive_count(es) <= es.len(),
    decreases es.len(),
{
    if es.len() > 0 {
        lemma_alive_count_bounds(es.drop_last());
    }
}

pub proof fn lemma_alive_count_push(es: Seq<Enemy>, e: Enemy)
    ensures
        alive_count(es.push(e)) == alive_count(es) + if e.alive {
            1int
        } else {
            0int
        },
{
    assert(es.push(e).drop_last() =~= es);
}

pub proof fn lemma_alive_count_update(es: Seq<Enemy>, i: int, e: Enemy)
    requires
        0 <= i < es.len(),
    ensures
        alive_count(es.update(i, e)) == alive_count(es) + (if e.alive {
            1int
        } else {
            0int
        }) - (if es[i].alive {
            1int
        } else {
            0int
        }),
    decreases es.len(),
{
    if i == es.len() - 1 {
        assert(es.update(i, e).drop_last() =~= es.drop_last());
        assert(es.update(i, e).last() == e);
    } else {
        assert(es.update(i, e).drop_last() =~= es.drop_last().update(i, e));
        assert(es.update(i, e).last() == es.last());
        lemma_alive_count_update(es.drop_last(), i, e);
    }
}

/// The index snapshot point an enemy contributes.
pub open spec fn enemy_pt(e: Enemy) -> KdPoint {
    KdPoint { id: e.id, x: e.x, y: e.y }
}

pub open spec fn player_pt(p: Player) -> KdPoint {
    KdPoint { id: PLAYER_ID, x: p.x, y: p.y }
}

pub struct Registry {
    pub player: Player,
    pub enemies: Vec<Enemy>,
    pub projectiles: Vec<Projectile>,
    /// Next fresh identifier; strictly above every identifier handed out.
    pub next_id: u64,
}

impl Registry {
    /// The registry's invariant: alive entities sit within world bounds,
    /// exhausted health means dead, the enemy population respects capacity,
    /// and no enemy shares the player's identifier.
    pub open spec fn wf(self, cfg: Config) -> bool {
        &&& cfg.pos_in_world(self.player.x as int, self.player.y as int)
        &&& (self.player.health == 0 ==> !self.player.alive)
        &&& forall|i: int|
            0 <= i < self.enemies@.len() ==> enemy_ok(cfg, #[trigger] self.enemies@[i])
        &&& forall|i: int|
            0 <= i < self.projectiles@.len() ==> projectile_ok(cfg, #[trigger] self.projectiles@[i])
        &&& alive_count(self.enemies@) <= cfg.enemy_capacity
        &&& self.next_id > PLAYER_ID
        &&& forall|i: int| 0 <= i < self.enemies@.len() ==> (#[trigger] self.enemies@[i]).id < self.next_id
        &&& forall|i: int, j: int|
            0 <= i < j < self.enemies@.len() ==> self.enemies@[i].id != self.enemies@[j].id
    }

    /// Which snapshot points the registry currently offers the spatial
    /// index: the player and every alive enemy.
    pub open spec fn snap_has(self, q: KdPoint) -> bool {
        (self.player.alive && q == player_pt(self.player)) || exists|i: int|
            0 <= i < self.enemies@.len() && (#[trigger] self.enemies@[i]).alive && q == enemy_pt(
                self.enemies@[i],
            )
    }

    pub fn new(cfg: &Config, px: i64, py: i64) -> (r: Registry)
        requires
            cfg.valid(),
            cfg.pos_in_world(px as int, py as int),
        ensures
            r.wf(*cfg),
            r.player == (Player { x: px, y: py, health: cfg.player_max_health, alive: true }),
            r.enemies@.len() == 0,
            r.projectiles@.len() == 0,
            r.next_id == PLAYER_ID + 1,
    {
        let r = Registry {
            player: Player { x: px, y: py, health: cfg.player_max_health, alive: true },
            enemies: Vec::new(),
            projectiles: Vec::new(),
            next_id: PLAYER_ID + 1,
        };
        r
    }

    /// Takes the position snapshot the spatial index is built from: one
    /// point per alive entity, all within the coordinate bounds.
    pub fn snapshot(&self, cfg: &Config) -> (v: Vec<KdPoint>)
        requires
            cfg.valid(),
            self.wf(*cfg),
        ensures
            forall|q: KdPoint| v@.contains(q) <==> self.snap_has(q),
            forall|i: int| 0 <= i < v@.len() ==> pt_ok(#[trigger] v@[i]),
            forall|a: int, b: int| 0 <= a < b < v@.len() ==> v@[a].id != v@[b].id,
    {
        let mut v: Vec<KdPoint> = Vec::new();
        if self.player.alive {
            v.push(KdPoint { id: PLAYER_ID, x: self.player.x, y: self.player.y });
        }
        let n = self.enemies.len();
        let mut k: usize = 0;
        while k < n
            invariant
                n == self.enemies@.len(),
                k <= n,
                cfg.valid(),
                self.wf(*cfg),
                forall|i: int| 0 <= i < v@.len() ==> pt_ok(#[trigger] v@[i]),
                forall|q: KdPoint|
                    v@.contains(q) <==> ((self.player.alive && q == player_pt(self.player))
                        || exists|i: int|
                        0 <= i < k && (#[trigger] self.enemies@[i]).alive && q == enemy_pt(
                            self.enemies@[i],
                        )),
                forall|idx: int|
                    0 <= idx < v@.len() ==> ((#[trigger] v@[idx].id) != PLAYER_ID ==> exists|j: int|
                        0 <= j < k && (#[trigger] self.enemies@[j]).id == v@[idx].id),
                forall|a: int, b: int| 0 <= a < b < v@.len() ==> v@[a].id != v@[b].id,
            decreases n - k,
        {
            let e = self.enemies[k];
            let ghost v0 = v@;
            if e.alive {
                v.push(KdPoint { id: e.id, x: e.x, y: e.y });
                proof {
                    assert(enemy_ok(*cfg, self.enemies@[k as int]));
                }
            }
            proof {
                let ki = k as int;
                assert(enemy_ok(*cfg, self.enemies@[ki]));
                assert forall|idx: int|
                    0 <= idx < v@.len() && (#[trigger] v@[idx].id) != PLAYER_ID implies (exists|
                    j: int,
                |
                    0 <= j < k + 1 && (#[trigger] self.enemies@[j]).id == v@[idx].id) by {
                    if idx < v0.len() {
                        assert(v@[idx] == v0[idx]);
                        let j = choose|j: int|
                            0 <= j < k && (#[trigger] self.enemies@[j]).id == v0[idx].id;
                        assert(0 <= j < k + 1 && self.enemies@[j].id == v@[idx].id);
                    } else {
                        assert(v@[idx].id == self.enemies@[ki].id);
                        assert(0 <= ki < k + 1 && self.enemies@[ki].id == v@[idx].id);
                    }
                }
                assert forall|a: int, b: int| 0 <= a < b < v@.len() implies v@[a].id
                    != v@[b].id by {
                    if b >= v0.len() {
                        assert(v@[b].id == self.enemies@[ki].id);
                        assert(v@[a] == v0[a]);
                        if v0[a].id != PLAYER_ID {
                            let j = choose|j: int|
                                0 <= j < k && (#[trigger] self.enemies@[j]).id == v0[a].id;
                            assert(self.enemies@[j].id != self.enemies@[ki].id);
                        }
                    } else {
                        assert(v@[a] == v0[a] && v@[b] == v0[b]);
                    }
                }
                assert forall|q: KdPoint|
                    v@.contains(q) <==> ((self.player.alive && q == player_pt(self.player))
                        || exists|i: int|
                        0 <= i < k + 1 && (#[trigger] self.enemies@[i]).alive && q == enemy_pt(
                            self.enemies@[i],
                        )) by {
                    if exists|i: int|
                        0 <= i < k && (#[trigger] self.enemies@[i]).alive && q == enemy_pt(
                            self.enemies@[i],
                        ) {
                        let i = choose|i: int|
                            0 <= i < k && (#[trigger] self.enemies@[i]).alive && q == enemy_pt(
                                self.enemies@[i],
                            );
                        assert(0 <= i < k + 1 && self.enemies@[i].alive && q == enemy_pt(
                            self.enemies@[i],
                        ));
                    }
                    if self.enemies@[ki].alive && q == enemy_pt(self.enemies@[ki]) {
                        assert(0 <= ki < k + 1 && self.enemies@[ki].alive && q == enemy_pt(
                            self.enemies@[ki],
                        ));
                    }
                    if exists|i: int|
                        0 <= i < k + 1 && (#[trigger] self.enemies@[i]).alive && q == enemy_pt(
                            self.enemies@[i],
                        ) {
                        let i = choose|i: int|
                            0 <= i < k + 1 && (#[trigger] self.enemies@[i]).alive && q == enemy_pt(
                                self.enemies@[i],
                            );
                        if i < ki {
                            assert(0 <= i < k && self.enemies@[i].alive && q == enemy_pt(
                                self.enemies@[i],
                            ));
                        }
                    }
                }
            }
            k += 1;
        }
        v
    }
}

/// What projectile aging does, from `reg0` to `reg1`: the player, the
/// enemies and every projectile's identity stand still, while each time to
/// live drops by the elapsed time, floored at zero, and a projectile whose
/// time ran out is no longer alive.
pub open spec fn aged_rel(reg0: Registry, reg1: Registry, dt_ms: u64) -> bool {
    &&& reg1.player == reg0.player
    &&& reg1.enemies@ == reg0.enemies@
    &&& reg1.next_id == reg0.next_id
    &&& reg1.projectiles@.len() == reg0.projectiles@.len()
    &&& forall|i: int|
        0 <= i < reg0.projectiles@.len() ==> {
            let p0 = reg0.projectiles@[i];
            let p1 = #[trigger] reg1.projectiles@[i];
            &&& p1.id == p0.id
            &&& p1.x == p0.x
            &&& p1.y == p0.y
            &&& p1.damage == p0.damage
            &&& p1.owner == p0.owner
            &&& p1.ttl_ms == if p0.ttl_ms <= dt_ms {
                0u64
            } else {
                (p0.ttl_ms - dt_ms) as u64
            }
            &&& p1.alive == (p0.alive && p0.ttl_ms > dt_ms)
        }
}

/// Advances every projectile's clock by the elapsed time: time to live
/// decreases monotonically, and a projectile whose time runs out this tick
/// is removed exactly once, here.
pub fn age_projectiles(reg: &mut Registry, cfg: &Config, dt_ms: u64)
    requires
        cfg.valid(),
        old(reg).wf(*cfg),
    ensures
        final(reg).wf(*cfg),
        aged_rel(*old(reg), *final(reg), dt_ms),
{
    let n = reg.projectiles.len();
    let mut i: usize = 0;
    while i < n
        invariant
            cfg.valid(),
            reg.wf(*cfg),
            i <= n,
            n == reg.projectiles@.len(),
            reg.player == old(reg).player,
            reg.enemies@ == old(reg).enemies@,
            reg.next_id == old(reg).next_id,
            reg.projectiles@.len() == old(reg).projectiles@.len(),
            forall|k: int| i <= k < n ==> reg.projectiles@[k] == old(reg).projectiles@[k],
            forall|k: int|
                0 <= k < i ==> {
                    let p0 = old(reg).projectiles@[k];
                    let p1 = #[trigger] reg.projectiles@[k];
                    &&& p1.id == p0.id
                    &&& p1.x == p0.x
                    &&& p1.y == p0.y
                    &&& p1.damage == p0.damage
                    &&& p1.owner == p0.owner
                    &&& p1.ttl_ms == if p0.ttl_ms <= dt_ms {
                        0u64
                    } else {
                        (p0.ttl_ms - dt_ms) as u64
                    }
                    &&& p1.alive == (p0.alive && p0.ttl_ms > dt_ms)
                },
        decreases n - i,
    {
        let mut p = reg.projectiles[i];
        if p.ttl_ms <= dt_ms {
            p.ttl_ms = 0;
            p.alive = false;
        } else {
            p.ttl_ms = p.ttl_ms - dt_ms;
        }
        reg.projectiles[i] = p;
        i += 1;
    }
}

/// Applies one projectile's damage to an enemy: health drops by the damage
/// and floors at zero; the enemy dies exactly when its health is exhausted,
/// in the same step the damage lands.
pub fn apply_damage_enemy(e: &mut Enemy, damage: u32) -> (killed: bool)
    requires
        old(e).alive,
    ensures
        final(e).id == old(e).id,
        final(e).x == old(e).x,
        final(e).y == old(e).y,
        final(e).health == if old(e).health <= damage {
            0u32
        } else {
            (old(e).health - damage) as u32
        },
        final(e).alive == (old(e).health > damage),
        killed == (old(e).health <= damage),
{
    if e.health <= damage {
        e.health = 0;
        e.alive = false;
        true
    } else {
        e.health = e.health - damage;
        false
    }
}

/// Applies one enemy contact's damage to the player, the same way.
pub fn apply_damage_player(p: &mut Player, damage: u32) -> (died: bool)
    requires
        old(p).alive,
    ensures
        final(p).x == old(p).x,
        final(p).y == old(p).y,
        final(p).health == if old(p).health <= damage {
            0u32
        } else {
            (old(p).health - damage) as u32
        },
        final(p).alive == (old(p).health > damage),
        died == (old(p).health <= damage),
{
    if p.health <= damage {
        p.health = 0;
        p.alive = false;
        true
    } else {
        p.health = p.health - damage;
        false
    }
}

} // verus!
