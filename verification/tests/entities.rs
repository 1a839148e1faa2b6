use towerish_side_effects::arena::Arena;
use towerish_side_effects::enemy::{enemy_tick, Enemy, EnemyOutcome, ENEMY_HEALTH, ENEMY_SPEED};
use towerish_side_effects::geometry::Vec3Milli;
use towerish_side_effects::path::{MovementType, PathManager, Proxy, ProxyKind};
use towerish_side_effects::projectile::{Projectile, ProjectileStep};
use towerish_side_effects::sim::{hits_from_contacts, HitEvent, Simulation};
use towerish_side_effects::state::{GameState, StateUpdateEvent};

fn waypoint(node_id: i32, x: i64, y: i64, z: i64) -> Proxy {
    Proxy {
        route_id: 0,
        node_id,
        kind: ProxyKind::Route,
        movement_type: MovementType::Walking,
        location: Vec3Milli { x, y, z },
    }
}

fn straight_path() -> PathManager {
    let mut pm = PathManager::new();
    pm.push(waypoint(0, 0, 0, 0));
    pm.push(waypoint(1, 10_000, 0, 0));
    pm
}

#[test]
fn enemy_progress_accumulates_per_tick() {
    let mut e = Enemy::new();
    assert_eq!(e.speed, ENEMY_SPEED);
    assert_eq!(e.health, ENEMY_HEALTH);
    e.advance(1_000);
    assert_eq!(e.progress, 1_500);
    e.advance(500);
    assert_eq!(e.progress, 2_250);
    e.advance(0);
    assert_eq!(e.progress, 2_250);
}

#[test]
fn hit_damage_is_a_tenth_of_the_force() {
    let mut e = Enemy::new();
    assert!(!e.apply_hit(10_000));
    assert_eq!(e.health, 1_000);
    assert!(e.apply_hit(10_000));
    assert_eq!(e.health, 0);
}

#[test]
fn killed_enemy_pays_the_fixed_reward() {
    let pm = straight_path();
    let mut e = Enemy::new();
    let (outcome, _pos) = enemy_tick(&mut e, 20_000, 100, &pm);
    assert_eq!(outcome, Some(EnemyOutcome::Killed { reward: 50_000 }));
}

#[test]
fn enemy_reaches_the_portal_near_path_end() {
    let pm = straight_path();
    let mut e = Enemy::new();
    e.progress = 9_850;
    // no damage; 100 ms at speed 1500 adds 150, landing exactly on the end
    let (outcome, pos) = enemy_tick(&mut e, 0, 100, &pm);
    assert_eq!(pos, Vec3Milli { x: 10_000, y: 0, z: 0 });
    assert_eq!(outcome, Some(EnemyOutcome::ReachedPortal));
}

#[test]
fn surviving_enemy_just_walks() {
    let pm = straight_path();
    let mut e = Enemy::new();
    let (outcome, pos) = enemy_tick(&mut e, 0, 1_000, &pm);
    assert_eq!(outcome, None);
    assert_eq!(pos, Vec3Milli { x: 1_500, y: 0, z: 0 });
    assert_eq!(e.progress, 1_500);
}

#[test]
fn arena_ids_go_stale_on_despawn() {
    let mut arena: Arena<Enemy> = Arena::new();
    let a = arena.spawn(Enemy::new());
    let b = arena.spawn(Enemy::new());
    assert!(arena.lookup(a).is_some());
    assert!(arena.despawn(a));
    assert!(arena.lookup(a).is_none());
    assert!(arena.lookup(b).is_some());
    // the slot is reused under a new generation; the old id stays stale
    let c = arena.spawn(Enemy::new());
    assert_eq!(c.index, a.index);
    assert!(arena.lookup(a).is_none());
    assert!(arena.lookup(c).is_some());
    assert!(!arena.despawn(a));
}

/// Scenario: a homing projectile's target is despawned before the
/// projectile reaches it; the next movement tick removes the projectile
/// without any hit.
#[test]
fn homing_projectile_self_destructs_on_stale_target() {
    let mut arena: Arena<Enemy> = Arena::new();
    let target = arena.spawn(Enemy::new());
    let p = Projectile::new(None, 10_000, 10_000, Some(target), 10_000);
    let pos = Vec3Milli { x: 0, y: 0, z: 0 };

    // while the target lives, the projectile closes in on it
    let target_pos = arena.lookup(target).map(|_| Vec3Milli { x: 5_000, y: 0, z: 0 });
    match p.step_movement(pos, target_pos, 100) {
        ProjectileStep::MoveTo(new_pos) => assert_eq!(new_pos, Vec3Milli { x: 1_000, y: 0, z: 0 }),
        ProjectileStep::Despawn => panic!("projectile died with a live target"),
    }

    arena.despawn(target);
    let target_pos = arena.lookup(target).map(|_| Vec3Milli { x: 5_000, y: 0, z: 0 });
    assert_eq!(target_pos, None);
    assert_eq!(p.step_movement(pos, target_pos, 100), ProjectileStep::Despawn);
}

#[test]
fn straight_projectile_flies_its_fixed_line() {
    let p = Projectile::new(
        Some(Vec3Milli { x: 0, y: 0, z: 2_000 }),
        60_000,
        1_000,
        None,
        1_500,
    );
    let pos = Vec3Milli { x: 0, y: 0, z: 0 };
    match p.step_movement(pos, None, 100) {
        ProjectileStep::MoveTo(new_pos) => assert_eq!(new_pos, Vec3Milli { x: 0, y: 0, z: 6_000 }),
        ProjectileStep::Despawn => panic!("straight projectile never self-destructs"),
    }
}

#[test]
fn projectile_lifetime_expires_once() {
    let mut p = Projectile::new(None, 10_000, 10_000, None, 1_500);
    assert!(!p.tick_lifetime(1_000));
    assert!(p.tick_lifetime(500));
    assert!(!p.tick_lifetime(5_000));
}

#[test]
fn simulation_spawns_only_during_a_wave() {
    let mut sim = Simulation::new(straight_path());
    let no_hits: Vec<HitEvent> = vec![];
    let (spawned, _) = sim.tick(2_000, &no_hits);
    assert!(spawned.is_none(), "no spawn while upgrading");
    sim.wave.apply_event(&StateUpdateEvent::StartWave { time_of_wave: 40_000, spawn_interval: 1_500 });
    let (spawned, _) = sim.tick(1_000, &no_hits);
    assert!(spawned.is_none(), "spawn interval not yet over");
    let (spawned, _) = sim.tick(500, &no_hits);
    assert!(spawned.is_some(), "spawn interval completed");
}

#[test]
fn simulation_never_spawns_after_loss() {
    let mut sim = Simulation::new(straight_path());
    sim.wave.apply_event(&StateUpdateEvent::StartWave { time_of_wave: 40_000, spawn_interval: 1_500 });
    for _ in 0..6 {
        sim.wave.apply_event(&StateUpdateEvent::EnemyReachedPortal);
    }
    assert_eq!(sim.wave.game_state, GameState::GameLost);
    let no_hits: Vec<HitEvent> = vec![];
    for _ in 0..10 {
        let (spawned, _) = sim.tick(10_000, &no_hits);
        assert!(spawned.is_none());
    }
}

/// Each enemy triggers exactly one outcome: a killed enemy is removed with
/// a kill event and pays its reward; it can never also reach the portal.
#[test]
fn one_outcome_per_enemy() {
    let mut sim = Simulation::new(straight_path());
    let a = sim.enemies.spawn(Enemy::new());
    let b = sim.enemies.spawn(Enemy::new());
    let money_before = sim.wave.money;
    let hits = vec![HitEvent { entity: a, force: 20_000 }];
    let events = sim.tick_enemies(100, &hits);
    assert_eq!(events.len(), 1);
    assert_eq!(events[0].0, a);
    assert_eq!(events[0].1, EnemyOutcome::Killed { reward: 50_000 });
    assert!(sim.enemies.lookup(a).is_none());
    assert!(sim.enemies.lookup(b).is_some());
    assert_eq!(sim.wave.money, money_before + 50_000);
    assert_eq!(sim.wave.enemies_killed, 1);
    // the dead enemy stays dead: no second outcome on later ticks
    let events = sim.tick_enemies(100, &hits);
    assert_eq!(events.len(), 0);
}

/// Contact facts translate into hits only for live projectiles; a spent or
/// stale projectile id translates to nothing.
#[test]
fn contacts_translate_to_hits_with_the_projectile_force() {
    let mut enemies: Arena<Enemy> = Arena::new();
    let victim = enemies.spawn(Enemy::new());
    let mut projectiles: Arena<Projectile> = Arena::new();
    let live = projectiles.spawn(Projectile::new(None, 10_000, 7_000, None, 1_000));
    let stale = projectiles.spawn(Projectile::new(None, 10_000, 9_000, None, 1_000));
    projectiles.despawn(stale);
    let contacts = vec![(victim, live), (victim, stale)];
    let (hits, spent) = hits_from_contacts(&contacts, &projectiles);
    assert_eq!(hits.len(), 1);
    assert_eq!(hits[0], HitEvent { entity: victim, force: 7_000 });
    assert_eq!(spent, vec![live]);
}

#[test]
fn portal_breach_costs_health_through_the_simulation() {
    let mut sim = Simulation::new(straight_path());
    let a = sim.enemies.spawn(Enemy::new());
    let health_before = sim.wave.health;
    let no_hits: Vec<HitEvent> = vec![];
    // walk the whole path: 10000 milli-units at 1500 per second
    let mut reached: usize = 0;
    for _ in 0..10 {
        let events = sim.tick_enemies(1_000, &no_hits);
        reached += events.len();
    }
    assert_eq!(reached, 1);
    assert!(sim.enemies.lookup(a).is_none());
    assert_eq!(sim.wave.health, health_before - 1_000);
}
