use coding_pet::Config;
use coding_pet::ConfigError;
use coding_pet::GameEvent;
use coding_pet::World;

// Fixed-point scale: 1000 units per world metre.
fn base_config() -> Config {
    Config {
        world_half_w: 1_500_000,
        world_half_h: 1_250_000,
        rebuild_interval_ms: 1000,
        enemy_capacity: 5,
        spawn_interval_ms: 500,
        player_radius: 1000,
        enemy_radius: 1000,
        projectile_radius: 500,
        player_max_health: 100,
        enemy_max_health: 100,
        enemy_contact_damage: 1,
        spawn_exclusion_radius: 2000,
    }
}

fn world(cfg: Config, px: i64, py: i64) -> World {
    match World::new(cfg, px, py) {
        Ok(w) => w,
        Err(_) => panic!("configuration refused"),
    }
}

#[test]
fn config_rejects_each_flaw() {
    let ok = base_config();
    assert!(ok.check().is_ok());
    let mut c = base_config();
    c.world_half_w = 0;
    assert_eq!(c.check(), Err(ConfigError::WorldSizeOutOfRange));
    let mut c = base_config();
    c.rebuild_interval_ms = 0;
    assert_eq!(c.check(), Err(ConfigError::RebuildIntervalZero));
    let mut c = base_config();
    c.enemy_capacity = 0;
    assert_eq!(c.check(), Err(ConfigError::EnemyCapacityZero));
    let mut c = base_config();
    c.spawn_interval_ms = 0;
    assert_eq!(c.check(), Err(ConfigError::SpawnIntervalZero));
    let mut c = base_config();
    c.enemy_radius = 0;
    assert_eq!(c.check(), Err(ConfigError::RadiusOutOfRange));
    let mut c = base_config();
    c.player_max_health = 0;
    assert_eq!(c.check(), Err(ConfigError::HealthZero));
    let mut c = base_config();
    c.spawn_exclusion_radius = -1;
    assert_eq!(c.check(), Err(ConfigError::ExclusionRadiusOutOfRange));
    let mut c = base_config();
    c.enemy_capacity = 0;
    assert!(World::new(c, 0, 0).is_err());
}

// Scenario: player at the origin with radius 1, an enemy at (0.5, 0) with
// radius 1 and contact damage 1, player health 100 — one tick leaves the
// player at 99 with a damage event reporting amount 1.
#[test]
fn contact_damages_player_once_per_tick() {
    let mut w = world(base_config(), 0, 0);
    w.add_enemy(500, 0).unwrap();
    w.rebuild_now();
    w.tick(16, &Vec::new());
    assert_eq!(w.player_health(), 99);
    assert!(w.player_alive());
    let events = w.drain_events();
    assert_eq!(events, vec![GameEvent::PlayerDamaged { amount: 1, remaining: 99 }]);
}

// Scenario: a projectile of damage 15 and radius 0.5 on top of an enemy with
// health 100 and radius 1 — one tick leaves the enemy at 85, consumes the
// projectile, and emits no kill event.
#[test]
fn projectile_hit_damages_enemy_and_is_consumed() {
    let mut w = world(base_config(), 0, 0);
    let eid = w.add_enemy(10_000, 10_000).unwrap();
    let pid = w.add_projectile(10_000, 10_000, 15, 1000, 0);
    w.rebuild_now();
    w.tick(16, &Vec::new());
    assert_eq!(w.enemy_health(eid), Some(85));
    assert_eq!(w.projectile_alive(pid), Some(false));
    assert_eq!(w.drain_events(), Vec::new());
}

// Damage conservation, lethal side: health 10 against damage 15 kills in one
// tick, consumes the projectile, and emits exactly one kill event.
#[test]
fn projectile_kill_emits_event_and_consumes() {
    let mut cfg = base_config();
    cfg.enemy_max_health = 10;
    let mut w = world(cfg, 0, 0);
    let eid = w.add_enemy(10_000, 10_000).unwrap();
    let pid = w.add_projectile(10_000, 10_000, 15, 1000, 0);
    w.rebuild_now();
    w.tick(16, &Vec::new());
    assert_eq!(w.enemy_health(eid), Some(0));
    assert_eq!(w.alive_enemies(), 0);
    assert_eq!(w.projectile_alive(pid), Some(false));
    assert_eq!(
        w.drain_events(),
        vec![GameEvent::EnemyKilled { id: eid, x: 10_000, y: 10_000 }]
    );
}

// Scenario: capacity 5 at 2 admissions per second from 0 enemies — after
// 2.5 seconds of ticks the count is 5, one admission per 0.5 s interval.
#[test]
fn spawner_fills_to_capacity_at_rate() {
    let mut w = world(base_config(), 0, 0);
    let cands = vec![
        (100_000, 100_000),
        (110_000, 100_000),
        (120_000, 100_000),
        (130_000, 100_000),
        (140_000, 100_000),
    ];
    let mut expected: usize = 0;
    for _ in 0..5 {
        w.tick(500, &cands);
        expected += 1;
        assert_eq!(w.alive_enemies(), expected);
    }
    // capacity reached: more time admits nobody
    w.tick(500, &cands);
    assert_eq!(w.alive_enemies(), 5);
    let spawns = w
        .drain_events()
        .into_iter()
        .filter(|e| matches!(e, GameEvent::EnemySpawned { .. }))
        .count();
    assert_eq!(spawns, 5);
}

// One long tick admits several enemies at once, still capped by capacity.
#[test]
fn long_tick_spawns_up_to_capacity() {
    let mut w = world(base_config(), 0, 0);
    let cands = vec![
        (100_000, 100_000),
        (110_000, 100_000),
        (120_000, 100_000),
        (130_000, 100_000),
        (140_000, 100_000),
        (150_000, 100_000),
        (160_000, 100_000),
    ];
    w.tick(3_500, &cands);
    assert_eq!(w.alive_enemies(), 5);
}

// Scenario: rebuild interval 1 s; an enemy moves across the world inside the
// interval. A query at the new position before the rebuild misses it — the
// documented staleness — and finds it after the next rebuild.
#[test]
fn stale_index_misses_until_rebuild() {
    let mut cfg = base_config();
    cfg.enemy_capacity = 1;
    let mut w = world(cfg, -1_000_000, -1_000_000);
    let eid = w.add_enemy(0, 0).unwrap();
    w.rebuild_now();
    assert!(w.set_enemy_position(eid, 100_000, 100_000));
    let before = w.range_query_ids(100_000, 100_000, 1000);
    assert!(!before.contains(&eid));
    w.tick(1000, &Vec::new());
    let after = w.range_query_ids(100_000, 100_000, 1000);
    assert!(after.contains(&eid));
}

// A projectile whose time to live runs out in the tick is removed before it
// can hit anything.
#[test]
fn expired_projectile_removed_without_hit() {
    let mut w = world(base_config(), 0, 0);
    let eid = w.add_enemy(10_000, 10_000).unwrap();
    let pid = w.add_projectile(10_000, 10_000, 15, 100, 0);
    w.rebuild_now();
    w.tick(200, &Vec::new());
    assert_eq!(w.enemy_health(eid), Some(100));
    assert_eq!(w.projectile_alive(pid), Some(false));
}

// Sampled spawn positions inside the exclusion circle around the player are
// rejected in favour of the next admissible candidate.
#[test]
fn spawn_rejects_positions_near_player() {
    let mut cfg = base_config();
    cfg.enemy_capacity = 1;
    let mut w = world(cfg, 0, 0);
    let cands = vec![(500, 0), (1_999, 0), (100_000, 0)];
    w.tick(500, &cands);
    assert_eq!(w.alive_enemies(), 1);
    let events = w.drain_events();
    assert_eq!(events.len(), 1);
    match events[0] {
        GameEvent::EnemySpawned { x, y, .. } => {
            assert_eq!((x, y), (100_000, 0));
        }
        _ => panic!("expected a spawn event"),
    }
}

// With every candidate inadmissible the spawner degrades to the fixed
// world-edge fallback position.
#[test]
fn spawn_falls_back_to_world_edge() {
    let mut cfg = base_config();
    cfg.enemy_capacity = 1;
    let mut w = world(cfg, 0, 0);
    let cands = vec![(100, 0), (0, 200)];
    w.tick(500, &cands);
    assert_eq!(w.alive_enemies(), 1);
    let events = w.drain_events();
    match events[0] {
        GameEvent::EnemySpawned { x, y, .. } => {
            assert_eq!((x, y), (1_500_000, 0));
        }
        _ => panic!("expected a spawn event"),
    }
}

// Contact damage reapplies every tick the overlap persists, and the moment
// health runs out the player dies with a single game-over event.
#[test]
fn sustained_contact_kills_player_with_game_over() {
    let mut cfg = base_config();
    cfg.player_max_health = 3;
    cfg.enemy_contact_damage = 2;
    let mut w = world(cfg, 0, 0);
    w.add_enemy(500, 0).unwrap();
    w.rebuild_now();
    w.tick(16, &Vec::new());
    assert_eq!(w.player_health(), 1);
    w.tick(16, &Vec::new());
    assert_eq!(w.player_health(), 0);
    assert!(!w.player_alive());
    let events = w.drain_events();
    assert_eq!(
        events,
        vec![
            GameEvent::PlayerDamaged { amount: 2, remaining: 1 },
            GameEvent::PlayerDamaged { amount: 2, remaining: 0 },
            GameEvent::GameOver,
        ]
    );
    // a dead player takes no further contact damage
    w.tick(16, &Vec::new());
    assert_eq!(w.player_health(), 0);
    assert_eq!(w.drain_events(), Vec::new());
}

// Phase order within one tick: collisions run before admission, so a kill
// frees capacity that the spawner may fill in the same tick.
#[test]
fn kill_frees_capacity_for_same_tick_spawn() {
    let mut cfg = base_config();
    cfg.enemy_capacity = 1;
    cfg.enemy_max_health = 10;
    let mut w = world(cfg, 0, 0);
    let eid = w.add_enemy(10_000, 10_000).unwrap();
    w.add_projectile(10_000, 10_000, 15, 1000, 0);
    w.rebuild_now();
    w.tick(500, &vec![(100_000, 0)]);
    assert_eq!(w.alive_enemies(), 1);
    let events = w.drain_events();
    assert_eq!(events.len(), 2);
    assert_eq!(events[0], GameEvent::EnemyKilled { id: eid, x: 10_000, y: 10_000 });
    assert!(matches!(events[1], GameEvent::EnemySpawned { .. }));
}

#[test]
fn nearest_entity_through_world() {
    let mut w = world(base_config(), 0, 0);
    let eid = w.add_enemy(10_000, 0).unwrap();
    w.rebuild_now();
    // the player (identifier 0) is nearer to the origin than the enemy
    assert_eq!(w.nearest_id(0, 0), Some(0));
    assert_eq!(w.nearest_id(9_000, 0), Some(eid));
}

#[test]
fn rendering_views_reflect_state() {
    let mut w = world(base_config(), 0, 0);
    let eid = w.add_enemy(10_000, 0).unwrap();
    let pid = w.add_projectile(20_000, 0, 15, 1000, 7);
    assert_eq!(w.player().health, 100);
    assert!(w.player().alive);
    assert_eq!(w.enemies().len(), 1);
    assert_eq!(w.enemies()[0].id, eid);
    assert_eq!(w.projectiles()[0].id, pid);
    assert_eq!(w.projectiles()[0].owner, 7);
}

// The capacity ceiling holds across admission and direct seeding alike.
#[test]
fn add_enemy_respects_capacity() {
    let mut cfg = base_config();
    cfg.enemy_capacity = 2;
    let mut w = world(cfg, 0, 0);
    assert!(w.add_enemy(100_000, 0).is_some());
    assert!(w.add_enemy(110_000, 0).is_some());
    assert!(w.add_enemy(120_000, 0).is_none());
    assert_eq!(w.alive_enemies(), 2);
}
