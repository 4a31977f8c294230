//! The collision resolver: detects projectile/enemy hits and enemy/player
//! contact through the spatial index, applies damage against live registry
//! positions, and emits the resulting events.
//!
//! The index only selects candidates; every hit is confirmed against the
//! entity's live position, so a stale index can at worst miss a candidate,
//! never mis-apply damage. A candidate that has died since the snapshot is
//! silently no hit.

use vstd::prelude::*;

use crate::config::Config;
use crate::geom::{dist_sq, dist_sq_i64, lemma_sq_abs_bound, RADIUS_LIMIT};
use crate::kdtree::KdTree;
use crate::registry::{
    apply_damage_enemy, apply_damage_player, enemy_ok, lemma_alive_count_update,
    Enemy, GameEvent, Player, Projectile, Registry, PLAYER_ID,
};

verus! {

/// The enemy after one projectile's damage: health floored at zero, dead
/// exactly when exhausted.
pub open spec fn damaged_enemy(e: Enemy, damage: u32) -> Enemy {
    Enemy {
        id: e.id,
        x: e.x,
        y: e.y,
        health: if e.health <= damage {
            0u32
        } else {
            (e.health - damage) as u32
        },
        alive: e.health > damage,
    }
}

/// Whether enemy `i` is a confirmed hit for projectile `pr`: alive, selected
/// by the index within the combined radii, and overlapping at its live
/// position.
pub open spec fn hit_candidate(
    cfg: Config,
    index: KdTree,
    enemies: Seq<Enemy>,
    pr: Projectile,
    i: int,
) -> bool {
    let e = enemies[i];
    let r = cfg.projectile_radius + cfg.enemy_radius;
    &&& 0 <= i < enemies.len()
    &&& e.alive
    &&& index.id_in_range(pr.x as int, pr.y as int, r as int, e.id)
    &&& dist_sq(pr.x as int, pr.y as int, e.x as int, e.y as int) <= r * r
}

/// The outcome one confirmed hit leaves behind: enemy `i` took the
/// projectile's damage, and a kill event was emitted exactly if it died.
pub open spec fn hit_outcome(
    cfg: Config,
    index: KdTree,
    reg0: Registry,
    j: int,
    reg1: Registry,
    ev0: Seq<GameEvent>,
    ev1: Seq<GameEvent>,
    i: int,
) -> bool {
    let e0 = reg0.enemies@[i];
    let e1 = damaged_enemy(e0, reg0.projectiles@[j].damage);
    &&& hit_candidate(cfg, index, reg0.enemies@, reg0.projectiles@[j], i)
    &&& reg1.enemies@ == reg0.enemies@.update(i, e1)
    &&& ev1 == if e1.alive {
        ev0
    } else {
        ev0.push(GameEvent::EnemyKilled { id: e0.id, x: e0.x, y: e0.y })
    }
}

/// What projectile index `j` contributes to the pass, from state
/// `(r0, e0)` to `(r1, e1)`: an alive projectile with a confirmed hit is
/// consumed and one hit enemy takes its damage; any other projectile leaves
/// the state untouched.
pub open spec fn projectile_step(
    cfg: Config,
    index: KdTree,
    r0: Registry,
    e0: Seq<GameEvent>,
    r1: Registry,
    e1: Seq<GameEvent>,
    j: int,
) -> bool {
    if 0 <= j < r0.projectiles@.len() && r0.projectiles@[j].alive {
        if exists|i: int| hit_candidate(cfg, index, r0.enemies@, r0.projectiles@[j], i) {
            &&& r1.player == r0.player
            &&& r1.next_id == r0.next_id
            &&& r1.projectiles@ == r0.projectiles@.update(
                j,
                Projectile { alive: false, ..r0.projectiles@[j] },
            )
            &&& exists|i: int| #[trigger] hit_outcome(cfg, index, r0, j, r1, e0, e1, i)
        } else {
            r1 == r0 && e1 == e0
        }
    } else {
        r1 == r0 && e1 == e0
    }
}

/// The whole projectile pass as a chain of per-projectile steps: state
/// number `j` of the trace is the registry and event stream before
/// projectile `j` is resolved, and each step satisfies `projectile_step`.
pub open spec fn projectile_pass(
    cfg: Config,
    index: KdTree,
    reg0: Registry,
    ev0: Seq<GameEvent>,
    reg1: Registry,
    ev1: Seq<GameEvent>,
    tr: Seq<Registry>,
    te: Seq<Seq<GameEvent>>,
) -> bool {
    &&& tr.len() == reg0.projectiles@.len() + 1
    &&& te.len() == tr.len()
    &&& tr[0] == reg0
    &&& te[0] == ev0
    &&& tr[tr.len() - 1] == reg1
    &&& te[te.len() - 1] == ev1
    &&& forall|j: int|
        0 <= j < reg0.projectiles@.len() ==> #[trigger] projectile_step(
            cfg,
            index,
            tr[j],
            te[j],
            tr[j + 1],
            te[j + 1],
            j,
        )
}

fn find_enemy(es: &Vec<Enemy>, id: u64) -> (r: Option<usize>)
    ensures
        match r {
            Some(i) => i < es@.len() && es@[i as int].id == id,
            None => forall|i: int| 0 <= i < es@.len() ==> (#[trigger] es@[i]).id != id,
        },
{
    let mut i: usize = 0;
    while i < es.len()
        invariant
            i <= es@.len(),
            forall|k: int| 0 <= k < i ==> (#[trigger] es@[k]).id != id,
        decreases es@.len() - i,
    {
        if es[i].id == id {
            return Some(i);
        }
        i += 1;
    }
    None
}

fn contains_id(ids: &Vec<u64>, id: u64) -> (r: bool)
    ensures
        r == ids@.contains(id),
{
    let mut i: usize = 0;
    while i < ids.len()
        invariant
            i <= ids@.len(),
            forall|k: int| 0 <= k < i ==> ids@[k] != id,
        decreases ids@.len() - i,
    {
        if ids[i] == id {
            assert(ids@[i as int] == id);
            return true;
        }
        i += 1;
    }
    false
}

/// Resolves one alive projectile against the enemies. If any confirmed hit
/// exists the projectile is consumed (single-hit, non-piercing) and exactly
/// one hit enemy takes its damage — dying, with a kill event, exactly when
/// its health is exhausted; with no confirmed hit nothing changes.
pub fn resolve_one_projectile(
    cfg: &Config,
    index: &KdTree,
    reg: &mut Registry,
    j: usize,
    events: &mut Vec<GameEvent>,
) -> (hit: bool)
    requires
        cfg.valid(),
        old(reg).wf(*cfg),
        index.wf(),
        j < old(reg).projectiles@.len(),
        old(reg).projectiles@[j as int].alive,
    ensures
        final(reg).wf(*cfg),
        final(reg).player == old(reg).player,
        final(reg).next_id == old(reg).next_id,
        hit == exists|i: int|
            hit_candidate(*cfg, *index, old(reg).enemies@, old(reg).projectiles@[j as int], i),
        !hit ==> *final(reg) == *old(reg) && final(events)@ == old(events)@,
        hit ==> final(reg).projectiles@ == old(reg).projectiles@.update(
            j as int,
            Projectile { alive: false, ..old(reg).projectiles@[j as int] },
        ),
        hit ==> exists|i: int|
            #[trigger] hit_outcome(
                *cfg,
                *index,
                *old(reg),
                j as int,
                *final(reg),
                old(events)@,
                final(events)@,
                i,
            ),
{
    let ghost ev0 = events@;
    let pr = reg.projectiles[j];
    let r = cfg.projectile_radius + cfg.enemy_radius;
    let ids = index.range_query(pr.x, pr.y, r);
    let mut k: usize = 0;
    while k < ids.len()
        invariant
            cfg.valid(),
            reg.wf(*cfg),
            index.wf(),
            *reg == *old(reg),
            events@ == ev0,
            old(events)@ == ev0,
            k <= ids@.len(),
            r == cfg.projectile_radius + cfg.enemy_radius,
            pr == reg.projectiles@[j as int],
            j < reg.projectiles@.len(),
            forall|id: u64|
                ids@.contains(id) <==> index.id_in_range(pr.x as int, pr.y as int, r as int, id),
            forall|i: int|
                0 <= i < reg.enemies@.len() && ids@.subrange(0, k as int).contains(
                    (#[trigger] reg.enemies@[i]).id,
                ) ==> !(reg.enemies@[i].alive && dist_sq(
                    pr.x as int,
                    pr.y as int,
                    reg.enemies@[i].x as int,
                    reg.enemies@[i].y as int,
                ) <= r * r),
        decreases ids@.len() - k,
    {
        let ghost sub_k = ids@.subrange(0, k as int);
        let id = ids[k];
        proof {
            assert(ids@[k as int] == id);
        }
        if let Some(i) = find_enemy(&reg.enemies, id) {
            let e0 = reg.enemies[i];
            if e0.alive {
                proof {
                    assert(enemy_ok(*cfg, reg.enemies@[i as int]));
                    lemma_sq_abs_bound(r as int, RADIUS_LIMIT as int);
                }
                let d2 = dist_sq_i64(pr.x, pr.y, e0.x, e0.y);
                if d2 <= r * r {
                    proof {
                        assert(ids@.contains(id));
                        assert(hit_candidate(*cfg, *index, reg.enemies@, pr, i as int));
                    }
                    let mut e = e0;
                    let killed = apply_damage_enemy(&mut e, pr.damage);
                    let ghost es0 = reg.enemies@;
                    reg.enemies[i] = e;
                    let mut pr2 = reg.projectiles[j];
                    pr2.alive = false;
                    reg.projectiles[j] = pr2;
                    if killed {
                        events.push(GameEvent::EnemyKilled { id: e0.id, x: e0.x, y: e0.y });
                    }
                    proof {
                        lemma_alive_count_update(es0, i as int, e);
                        assert(e == damaged_enemy(es0[i as int], pr.damage));
                        assert(reg.enemies@ == es0.update(i as int, e));
                        assert(pr2 == (Projectile { alive: false, ..old(reg).projectiles@[j as int] }));
                        assert(reg.projectiles@ == old(reg).projectiles@.update(j as int, pr2));
                        assert(events@ == if e.alive {
                            ev0
                        } else {
                            ev0.push(GameEvent::EnemyKilled { id: e0.id, x: e0.x, y: e0.y })
                        });
                        assert(hit_outcome(
                            *cfg,
                            *index,
                            *old(reg),
                            j as int,
                            *reg,
                            ev0,
                            events@,
                            i as int,
                        ));
                        assert(exists|i2: int|
                            hit_outcome(
                                *cfg,
                                *index,
                                *old(reg),
                                j as int,
                                *reg,
                                ev0,
                                events@,
                                i2,
                            ));
                    }
                    return true;
                } else {
                    proof {
                        assert forall|i2: int|
                            0 <= i2 < reg.enemies@.len() && (#[trigger] reg.enemies@[i2]).id == id
                                implies !(reg.enemies@[i2].alive && dist_sq(
                            pr.x as int,
                            pr.y as int,
                            reg.enemies@[i2].x as int,
                            reg.enemies@[i2].y as int,
                        ) <= r * r) by {
                            if i2 != i as int {
                                assert(reg.enemies@[i2].id != reg.enemies@[i as int].id);
                            }
                        }
                    }
                }
            } else {
                proof {
                    assert forall|i2: int|
                        0 <= i2 < reg.enemies@.len() && (#[trigger] reg.enemies@[i2]).id == id
                            implies !reg.enemies@[i2].alive by {
                        if i2 != i as int {
                            assert(reg.enemies@[i2].id != reg.enemies@[i as int].id);
                        }
                    }
                }
            }
        } else {
            proof {
                assert(forall|i2: int|
                    0 <= i2 < reg.enemies@.len() ==> (#[trigger] reg.enemies@[i2]).id != id);
            }
        }
        proof {
            assert(ids@.subrange(0, k + 1 as int) =~= sub_k.push(ids@[k as int]));
            assert forall|i: int|
                0 <= i < reg.enemies@.len() && ids@.subrange(0, k + 1 as int).contains(
                    (#[trigger] reg.enemies@[i]).id,
                ) implies !(reg.enemies@[i].alive && dist_sq(
                pr.x as int,
                pr.y as int,
                reg.enemies@[i].x as int,
                reg.enemies@[i].y as int,
            ) <= r * r) by {
                if !sub_k.contains(reg.enemies@[i].id) {
                    assert(reg.enemies@[i].id == id);
                }
            }
        }
        k += 1;
    }
    proof {
        assert(ids@.subrange(0, ids@.len() as int) =~= ids@);
        assert forall|i: int|
            !hit_candidate(
                *cfg,
                *index,
                old(reg).enemies@,
                old(reg).projectiles@[j as int],
                i,
            ) by {
            if 0 <= i < reg.enemies@.len() {
                if index.id_in_range(pr.x as int, pr.y as int, r as int, reg.enemies@[i].id) {
                    assert(ids@.contains(reg.enemies@[i].id));
                }
            }
        }
    }
    false
}

/// Resolves every alive projectile in order, each against the enemies as
/// prior hits left them: positions and identities never change here, health
/// never rises, death is never undone, and a consumed projectile stays
/// consumed.
pub fn resolve_projectiles(
    cfg: &Config,
    index: &KdTree,
    reg: &mut Registry,
    events: &mut Vec<GameEvent>,
)
    requires
        cfg.valid(),
        old(reg).wf(*cfg),
        index.wf(),
    ensures
        final(reg).wf(*cfg),
        final(reg).player == old(reg).player,
        final(reg).next_id == old(reg).next_id,
        final(reg).enemies@.len() == old(reg).enemies@.len(),
        final(reg).projectiles@.len() == old(reg).projectiles@.len(),
        forall|i: int|
            0 <= i < old(reg).enemies@.len() ==> {
                let e0 = old(reg).enemies@[i];
                let e1 = #[trigger] final(reg).enemies@[i];
                &&& e1.id == e0.id
                &&& e1.x == e0.x
                &&& e1.y == e0.y
                &&& e1.health <= e0.health
                &&& (e1.alive ==> e0.alive)
            },
        forall|jj: int|
            0 <= jj < old(reg).projectiles@.len() ==> {
                let p0 = old(reg).projectiles@[jj];
                let p1 = #[trigger] final(reg).projectiles@[jj];
                &&& p1 == (Projectile { alive: p1.alive, ..p0 })
                &&& (p1.alive ==> p0.alive)
            },
        forall|i: int| 0 <= i < old(events)@.len() ==> final(events)@[i] == old(events)@[i],
        final(events)@.len() >= old(events)@.len(),
        exists|tr: Seq<Registry>, te: Seq<Seq<GameEvent>>|
            #[trigger] projectile_pass(
                *cfg,
                *index,
                *old(reg),
                old(events)@,
                *final(reg),
                final(events)@,
                tr,
                te,
            ),
{
    let ghost reg0 = *reg;
    let ghost ev0 = events@;
    let ghost mut tr: Seq<Registry> = seq![*reg];
    let ghost mut te: Seq<Seq<GameEvent>> = seq![events@];
    let n = reg.projectiles.len();
    let mut j: usize = 0;
    while j < n
        invariant
            cfg.valid(),
            reg.wf(*cfg),
            index.wf(),
            n == reg.projectiles@.len(),
            j <= n,
            reg0 == *old(reg),
            ev0 == old(events)@,
            tr.len() == j + 1,
            te.len() == j + 1,
            tr[0] == reg0,
            te[0] == ev0,
            tr[j as int] == *reg,
            te[j as int] == events@,
            forall|jj: int|
                0 <= jj < j ==> #[trigger] projectile_step(
                    *cfg,
                    *index,
                    tr[jj],
                    te[jj],
                    tr[jj + 1],
                    te[jj + 1],
                    jj,
                ),
            reg.player == reg0.player,
            reg.next_id == reg0.next_id,
            reg.enemies@.len() == reg0.enemies@.len(),
            reg.projectiles@.len() == reg0.projectiles@.len(),
            forall|i: int|
                0 <= i < reg0.enemies@.len() ==> {
                    let e0 = reg0.enemies@[i];
                    let e1 = #[trigger] reg.enemies@[i];
                    &&& e1.id == e0.id
                    &&& e1.x == e0.x
                    &&& e1.y == e0.y
                    &&& e1.health <= e0.health
                    &&& (e1.alive ==> e0.alive)
                },
            forall|jj: int|
                0 <= jj < reg0.projectiles@.len() ==> {
                    let p0 = reg0.projectiles@[jj];
                    let p1 = #[trigger] reg.projectiles@[jj];
                    &&& p1 == (Projectile { alive: p1.alive, ..p0 })
                    &&& (p1.alive ==> p0.alive)
                },
            forall|i: int| 0 <= i < ev0.len() ==> events@[i] == ev0[i],
            events@.len() >= ev0.len(),
        decreases n - j,
    {
        let ghost r_before = *reg;
        let ghost e_before = events@;
        if reg.projectiles[j].alive {
            resolve_one_projectile(cfg, index, reg, j, events);
        }
        proof {
            tr = tr.push(*reg);
            te = te.push(events@);
            assert(projectile_step(
                *cfg,
                *index,
                r_before,
                e_before,
                *reg,
                events@,
                j as int,
            ));
        }
        j += 1;
    }
    proof {
        assert(projectile_pass(*cfg, *index, reg0, ev0, *reg, events@, tr, te));
    }
}

/// Player health after `k` contacts of damage `d` each, floored at zero.
pub open spec fn health_after(h: int, d: u32, k: int) -> int
    decreases k,
{
    if k <= 0 {
        h
    } else {
        let p = health_after(h, d, k - 1);
        if p <= d {
            0
        } else {
            p - d
        }
    }
}

pub proof fn lemma_health_after_bounds(h: int, d: u32, k: int)
    requires
        h >= 0,
    ensures
        0 <= health_after(h, d, k) <= h,
    decreases k,
{
    if k > 0 {
        lemma_health_after_bounds(h, d, k - 1);
    }
}

/// Whether enemy `e` is in confirmed contact with the player this tick:
/// alive, selected by the index within the combined radii, and overlapping
/// the player's live position.
pub open spec fn touching(cfg: Config, index: KdTree, player: Player, e: Enemy) -> bool {
    let r = cfg.enemy_radius + cfg.player_radius;
    &&& e.alive
    &&& index.id_in_range(e.x as int, e.y as int, r as int, PLAYER_ID)
    &&& dist_sq(e.x as int, e.y as int, player.x as int, player.y as int) <= r * r
}

/// How many of the first `n` enemies touch the player.
pub open spec fn touch_count(
    cfg: Config,
    index: KdTree,
    player: Player,
    es: Seq<Enemy>,
    n: int,
) -> int
    decreases n,
{
    if n <= 0 {
        0
    } else {
        touch_count(cfg, index, player, es, n - 1) + if touching(cfg, index, player, es[n - 1]) {
            1int
        } else {
            0int
        }
    }
}

pub proof fn lemma_touch_count_nonneg(
    cfg: Config,
    index: KdTree,
    player: Player,
    es: Seq<Enemy>,
    n: int,
)
    ensures
        0 <= touch_count(cfg, index, player, es, n),
    decreases n,
{
    if n > 0 {
        lemma_touch_count_nonneg(cfg, index, player, es, n - 1);
    }
}

/// The events `k` contacts append: one damage report per contact that finds
/// the player still alive, and a single game-over the moment health runs
/// out.
pub open spec fn contact_trace(h0: int, d: u32, k: int) -> Seq<GameEvent>
    decreases k,
{
    if k <= 0 {
        Seq::empty()
    } else {
        let prev = contact_trace(h0, d, k - 1);
        let p = health_after(h0, d, k - 1);
        if p > 0 {
            let nh = health_after(h0, d, k);
            let dmg = prev.push(
                GameEvent::PlayerDamaged { amount: d, remaining: nh as u32 },
            );
            if nh == 0 {
                dmg.push(GameEvent::GameOver)
            } else {
                dmg
            }
        } else {
            prev
        }
    }
}

/// What the contact phase does, from `(reg0, ev0)` to `(reg1, ev1)`:
/// enemies and projectiles pass through untouched, a dead player is left
/// alone, and an alive player ends at exactly the health that one contact
/// per touching enemy leaves, with exactly the matching event trace.
pub open spec fn contacts_rel(
    cfg: Config,
    index: KdTree,
    reg0: Registry,
    ev0: Seq<GameEvent>,
    reg1: Registry,
    ev1: Seq<GameEvent>,
) -> bool {
    &&& reg1.enemies@ == reg0.enemies@
    &&& reg1.projectiles@ == reg0.projectiles@
    &&& reg1.next_id == reg0.next_id
    &&& reg1.player.x == reg0.player.x
    &&& reg1.player.y == reg0.player.y
    &&& (!reg0.player.alive ==> reg1 == reg0 && ev1 == ev0)
    &&& (reg0.player.alive ==> {
        let k = touch_count(cfg, index, reg0.player, reg0.enemies@, reg0.enemies@.len() as int);
        let h0 = reg0.player.health as int;
        &&& reg1.player.health == health_after(h0, cfg.enemy_contact_damage, k)
        &&& reg1.player.alive == (health_after(h0, cfg.enemy_contact_damage, k) > 0)
        &&& ev1 == ev0 + contact_trace(h0, cfg.enemy_contact_damage, k)
    })
}

/// Enemy/player contact resolution: every alive enemy overlapping the
/// player's live position deals its contact damage this tick (contact
/// damage reapplies on every tick the overlap persists), each application
/// reported by an event, with game-over emitted the moment health runs out.
/// Enemies and projectiles are left untouched.
pub fn resolve_contacts(
    cfg: &Config,
    index: &KdTree,
    reg: &mut Registry,
    events: &mut Vec<GameEvent>,
)
    requires
        cfg.valid(),
        old(reg).wf(*cfg),
        index.wf(),
    ensures
        final(reg).wf(*cfg),
        final(reg).enemies@ == old(reg).enemies@,
        final(reg).projectiles@ == old(reg).projectiles@,
        final(reg).next_id == old(reg).next_id,
        final(reg).player.x == old(reg).player.x,
        final(reg).player.y == old(reg).player.y,
        !old(reg).player.alive ==> *final(reg) == *old(reg) && final(events)@ == old(events)@,
        old(reg).player.alive ==> {
            let k = touch_count(
                *cfg,
                *index,
                old(reg).player,
                old(reg).enemies@,
                old(reg).enemies@.len() as int,
            );
            let h0 = old(reg).player.health as int;
            &&& final(reg).player.health == health_after(h0, cfg.enemy_contact_damage, k)
            &&& final(reg).player.alive == (health_after(h0, cfg.enemy_contact_damage, k) > 0)
            &&& final(events)@ == old(events)@ + contact_trace(h0, cfg.enemy_contact_damage, k)
        },
        contacts_rel(*cfg, *index, *old(reg), old(events)@, *final(reg), final(events)@),
{
    if !reg.player.alive {
        return ;
    }
    let ghost h0 = reg.player.health as int;
    let ghost pl0 = reg.player;
    let ghost ev0 = events@;
    let r = cfg.enemy_radius + cfg.player_radius;
    let n = reg.enemies.len();
    let mut i: usize = 0;
    proof {
        assert(events@ =~= ev0 + contact_trace(h0, cfg.enemy_contact_damage, 0));
    }
    while i < n
        invariant
            cfg.valid(),
            reg.wf(*cfg),
            index.wf(),
            i <= n,
            n == reg.enemies@.len(),
            reg.enemies@ == old(reg).enemies@,
            reg.projectiles@ == old(reg).projectiles@,
            reg.next_id == old(reg).next_id,
            pl0 == old(reg).player,
            pl0.alive,
            h0 == pl0.health as int,
            h0 > 0,
            r == cfg.enemy_radius + cfg.player_radius,
            reg.player.x == pl0.x,
            reg.player.y == pl0.y,
            ev0 == old(events)@,
            reg.player.health == health_after(
                h0,
                cfg.enemy_contact_damage,
                touch_count(*cfg, *index, pl0, reg.enemies@, i as int),
            ),
            reg.player.alive == (health_after(
                h0,
                cfg.enemy_contact_damage,
                touch_count(*cfg, *index, pl0, reg.enemies@, i as int),
            ) > 0),
            events@ == ev0 + contact_trace(
                h0,
                cfg.enemy_contact_damage,
                touch_count(*cfg, *index, pl0, reg.enemies@, i as int),
            ),
        decreases n - i,
    {
        let ghost k0 = touch_count(*cfg, *index, pl0, reg.enemies@, i as int);
        let e = reg.enemies[i];
        let mut touch = false;
        if e.alive {
            let ids = index.range_query(e.x, e.y, r);
            if contains_id(&ids, PLAYER_ID) {
                proof {
                    assert(enemy_ok(*cfg, reg.enemies@[i as int]));
                    lemma_sq_abs_bound(r as int, RADIUS_LIMIT as int);
                }
                let d2 = dist_sq_i64(e.x, e.y, reg.player.x, reg.player.y);
                if d2 <= r * r {
                    touch = true;
                }
                proof {
                    assert(touch == touching(*cfg, *index, pl0, reg.enemies@[i as int]));
                }
            } else {
                proof {
                    assert(!index.id_in_range(e.x as int, e.y as int, r as int, PLAYER_ID));
                    assert(touch == touching(*cfg, *index, pl0, reg.enemies@[i as int]));
                }
            }
        } else {
            proof {
                assert(touch == touching(*cfg, *index, pl0, reg.enemies@[i as int]));
            }
        }
        proof {
            assert(touch_count(*cfg, *index, pl0, reg.enemies@, i + 1 as int) == k0 + if touch {
                1int
            } else {
                0int
            });
            lemma_touch_count_nonneg(*cfg, *index, pl0, reg.enemies@, i as int);
            lemma_health_after_bounds(h0, cfg.enemy_contact_damage, k0);
            lemma_health_after_bounds(h0, cfg.enemy_contact_damage, k0 + 1);
        }
        let ghost knew = touch_count(*cfg, *index, pl0, reg.enemies@, i + 1 as int);
        proof {
            if touch {
                assert(knew == k0 + 1);
                assert(health_after(h0, cfg.enemy_contact_damage, knew) == (
                if health_after(h0, cfg.enemy_contact_damage, k0) <= cfg.enemy_contact_damage {
                    0int
                } else {
                    health_after(h0, cfg.enemy_contact_damage, k0) - cfg.enemy_contact_damage
                }));
                assert(contact_trace(h0, cfg.enemy_contact_damage, knew) == (
                if health_after(h0, cfg.enemy_contact_damage, k0) > 0 {
                    if health_after(h0, cfg.enemy_contact_damage, knew) == 0 {
                        contact_trace(h0, cfg.enemy_contact_damage, k0).push(
                            (GameEvent::PlayerDamaged {
                                amount: cfg.enemy_contact_damage,
                                remaining: health_after(h0, cfg.enemy_contact_damage, knew) as u32,
                            }),
                        ).push(GameEvent::GameOver)
                    } else {
                        contact_trace(h0, cfg.enemy_contact_damage, k0).push(
                            (GameEvent::PlayerDamaged {
                                amount: cfg.enemy_contact_damage,
                                remaining: health_after(h0, cfg.enemy_contact_damage, knew) as u32,
                            }),
                        )
                    }
                } else {
                    contact_trace(h0, cfg.enemy_contact_damage, k0)
                }));
            } else {
                assert(knew == k0);
            }
        }
        if touch {
            if reg.player.alive {
                let mut pl = reg.player;
                apply_damage_player(&mut pl, cfg.enemy_contact_damage);
                reg.player = pl;
                events.push(
                    GameEvent::PlayerDamaged {
                        amount: cfg.enemy_contact_damage,
                        remaining: pl.health,
                    },
                );
                if !pl.alive {
                    events.push(GameEvent::GameOver);
                }
                proof {
                    assert(events@ =~= ev0 + contact_trace(h0, cfg.enemy_contact_damage, knew));
                }
            } else {
                proof {
                    assert(events@ =~= ev0 + contact_trace(h0, cfg.enemy_contact_damage, knew));
                }
            }
        } else {
            proof {
                assert(events@ =~= ev0 + contact_trace(h0, cfg.enemy_contact_damage, knew));
            }
        }
        i += 1;
    }
}

} // verus!
