use towerish_side_effects::geometry::Vec3Milli;
use towerish_side_effects::market::{
    get_side_effect, parse_force, purchase_upgrade, side_effect_for_roll, try_build, try_upgrade,
};
use towerish_side_effects::state::WaveState;
use towerish_side_effects::tower::{Tower, TowerSideEffects, TowerType, TowerUpgrades};

/// Money 1000, wave multiplier 1, Gun price 500: two builds succeed, the
/// third is rejected with the money unchanged.
#[test]
fn two_gun_builds_then_rejection() {
    let mut ws = WaveState::new();
    assert_eq!(ws.money, 1_000_000);
    assert!(try_build(&mut ws, TowerType::Gun).is_some());
    assert_eq!(ws.money, 500_000);
    assert!(try_build(&mut ws, TowerType::Gun).is_some());
    assert_eq!(ws.money, 0);
    let snapshot = ws;
    assert!(try_build(&mut ws, TowerType::Gun).is_none());
    assert_eq!(ws, snapshot);
    assert_eq!(ws.money, 0);
}

#[test]
fn tower_prices_scale_with_waves() {
    assert_eq!(TowerType::Gun.get_price(0), 500_000);
    assert_eq!(TowerType::Gun.get_price(1), 500_000);
    assert_eq!(TowerType::Rocket.get_price(1), 650_000);
    assert_eq!(TowerType::Sniper.get_price(1), 600_000);
    assert_eq!(TowerType::Gun.get_price(3), 1_500_000);
    assert_eq!(TowerType::Rocket.get_price(-2), 650_000);
}

#[test]
fn upgrade_prices_follow_the_formula() {
    assert_eq!(TowerUpgrades::BulletSpeedBuff(0).get_price(1, 1), 101_050);
    assert_eq!(TowerUpgrades::ForceBuff(0).get_price(1, 1), 101_050);
    assert_eq!(TowerUpgrades::AOE(0).get_price(1, 1), 202_050);
    assert_eq!(TowerUpgrades::ShootingSpeedBuff(0).get_price(1, 1), 505_050);
    assert_eq!(TowerUpgrades::BulletSpeedBuff(0).get_price(2, 3), 100_000 + 1_050 * 6);
    assert_eq!(TowerUpgrades::BulletSpeedBuff(0).get_price(0, 2), 100_000 + 1_050 * 2);
}

/// A rejected upgrade purchase leaves money, tower state and wave state
/// exactly as they were.
#[test]
fn rejected_upgrade_changes_nothing() {
    let mut ws = WaveState::new();
    ws.money = 50_000;
    let mut tower = Tower::new(TowerType::Gun);
    let ws_before = ws;
    let timer_before = tower.shooting_timer;
    let rejected = try_upgrade(&mut ws, &mut tower, TowerUpgrades::ForceBuff(0), 1, None);
    assert!(!rejected);
    assert_eq!(ws, ws_before);
    assert_eq!(tower.shooting_timer, timer_before);
    assert_eq!(tower.upgrades.len(), 0);
    assert_eq!(tower.side_effects.len(), 0);
}

#[test]
fn accepted_upgrade_debits_and_records() {
    let mut ws = WaveState::new();
    let mut tower = Tower::new(TowerType::Gun);
    let accepted = try_upgrade(
        &mut ws,
        &mut tower,
        TowerUpgrades::ForceBuff(0),
        2,
        Some(TowerSideEffects::WeakShot(2_000)),
    );
    assert!(accepted);
    assert_eq!(ws.money, 1_000_000 - (100_000 + 1_050 * 2));
    assert_eq!(tower.upgrades.len(), 1);
    assert!(matches!(tower.upgrades[0], TowerUpgrades::ForceBuff(2_000)));
    assert_eq!(tower.side_effects.len(), 1);
}

#[test]
fn shooting_speed_upgrade_shortens_the_cooldown() {
    let mut ws = WaveState::new();
    ws.money = 10_000_000;
    let mut tower = Tower::new(TowerType::Gun);
    assert_eq!(tower.shooting_timer.duration, 200);
    // magnitude 1000 milli-seconds-of-buff cuts 100 ms of cooldown
    let accepted = try_upgrade(&mut ws, &mut tower, TowerUpgrades::ShootingSpeedBuff(0), 1, None);
    assert!(accepted);
    assert_eq!(tower.shooting_timer.duration, 100);
    assert_eq!(tower.upgrades.len(), 0);
    // a huge buff floors the cooldown at one millisecond, never below
    let accepted = try_upgrade(&mut ws, &mut tower, TowerUpgrades::ShootingSpeedBuff(0), 90, None);
    assert!(accepted);
    assert_eq!(tower.shooting_timer.duration, 1);
}

#[test]
fn purchase_upgrade_rolls_at_most_one_side_effect() {
    let mut ws = WaveState::new();
    ws.money = 100_000_000;
    let mut tower = Tower::new(TowerType::Rocket);
    for _ in 0..5 {
        assert!(purchase_upgrade(&mut ws, &mut tower, TowerUpgrades::ForceBuff(0), 4));
    }
    assert_eq!(tower.upgrades.len(), 5);
    assert!(tower.side_effects.len() <= 5);
    for se in &tower.side_effects {
        match se {
            TowerSideEffects::WeakShot(v) => assert_eq!(*v, 4_000),
            TowerSideEffects::HealShot(v) => assert_eq!(*v, 4_000),
        }
    }
}

/// The roll bands are exact: with wave multiplier 1 and force 4 the weights
/// are [100000, 2000, 800], so rolls map to {none, weak, heal} by range.
#[test]
fn side_effect_bands_follow_the_roll() {
    assert_eq!(side_effect_for_roll(1, 4, 0), None);
    assert_eq!(side_effect_for_roll(1, 4, 99_999), None);
    assert_eq!(side_effect_for_roll(1, 4, 100_000), Some(TowerSideEffects::WeakShot(4_000)));
    assert_eq!(side_effect_for_roll(1, 4, 101_999), Some(TowerSideEffects::WeakShot(4_000)));
    assert_eq!(side_effect_for_roll(1, 4, 102_000), Some(TowerSideEffects::HealShot(4_000)));
    assert_eq!(side_effect_for_roll(1, 4, 102_799), Some(TowerSideEffects::HealShot(4_000)));
}

/// A zero force never grants a side effect: its weights are zero.
#[test]
fn zero_force_rolls_nothing() {
    for _ in 0..50 {
        assert!(get_side_effect(1, 0).is_none());
    }
}

#[test]
fn side_effect_carries_the_chosen_force() {
    for _ in 0..50 {
        match get_side_effect(1_000, 7) {
            None => {},
            Some(TowerSideEffects::WeakShot(v)) => assert_eq!(v, 7_000),
            Some(TowerSideEffects::HealShot(v)) => assert_eq!(v, 7_000),
        }
    }
}

#[test]
fn force_input_is_validated() {
    assert_eq!(parse_force(b"42"), 42);
    assert_eq!(parse_force(b"0"), 0);
    assert_eq!(parse_force(b"100000"), 100_000);
    assert_eq!(parse_force(b""), 1);
    assert_eq!(parse_force(b"abc"), 1);
    assert_eq!(parse_force(b"12x"), 1);
    assert_eq!(parse_force(b"-5"), 1);
    assert_eq!(parse_force(b"100001"), 1);
    assert_eq!(parse_force(b"99999999999999999999"), 1);
}

#[test]
fn weights_scale_with_wave_and_force() {
    let w = TowerSideEffects::get_weights(2, 3);
    assert_eq!(w, vec![100_000, 500 * 6, 200 * 6]);
    let w = TowerSideEffects::get_weights(0, 3);
    assert_eq!(w, vec![100_000, 1_500, 600]);
}

#[test]
fn gun_shot_fixes_direction_while_rocket_homes() {
    let mut gun = Tower::new(TowerType::Gun);
    let mut rocket = Tower::new(TowerType::Rocket);
    let tower_pos = Vec3Milli { x: 0, y: 0, z: 0 };
    let targets = vec![Vec3Milli { x: 9_000, y: 0, z: 0 }, Vec3Milli { x: 2_000, y: 0, z: 0 }];
    let shot = gun.tick_shoot(TowerType::Gun, tower_pos, 200, &targets).unwrap();
    assert_eq!(shot.0, 1, "the nearer target is chosen");
    let ps = shot.1;
    assert!(!ps.homing);
    assert_eq!(ps.direction, Some(Vec3Milli { x: 2_000, y: 0, z: 0 }));
    assert_eq!(ps.speed, 60_000);
    assert_eq!(ps.force, 1_000);
    assert_eq!(ps.lifetime_ms, 1_500);

    let shot = rocket.tick_shoot(TowerType::Rocket, tower_pos, 1_500, &targets).unwrap();
    let ps = shot.1;
    assert!(ps.homing);
    assert_eq!(ps.direction, None);
    assert_eq!(ps.speed, 10_000);
    assert_eq!(ps.force, 10_000);
    assert_eq!(ps.lifetime_ms, 10_000);
}

#[test]
fn upgrades_raise_shot_stats_additively() {
    let mut gun = Tower::new(TowerType::Gun);
    let mut ws = WaveState::new();
    ws.money = 100_000_000;
    assert!(try_upgrade(&mut ws, &mut gun, TowerUpgrades::BulletSpeedBuff(0), 5, None));
    assert!(try_upgrade(&mut ws, &mut gun, TowerUpgrades::ForceBuff(0), 2, None));
    assert!(try_upgrade(&mut ws, &mut gun, TowerUpgrades::ForceBuff(0), 3, None));
    let targets = vec![Vec3Milli { x: 1_000, y: 0, z: 0 }];
    let (_, ps) = gun.tick_shoot(TowerType::Gun, Vec3Milli { x: 0, y: 0, z: 0 }, 200, &targets)
        .unwrap();
    assert_eq!(ps.speed, 60_000 + 5_000);
    assert_eq!(ps.force, 1_000 + 2_000 + 3_000);
}

#[test]
fn cooldown_gates_the_shots() {
    let mut gun = Tower::new(TowerType::Gun);
    let targets = vec![Vec3Milli { x: 1_000, y: 0, z: 0 }];
    let pos = Vec3Milli { x: 0, y: 0, z: 0 };
    assert!(gun.tick_shoot(TowerType::Gun, pos, 100, &targets).is_none());
    assert!(gun.tick_shoot(TowerType::Gun, pos, 100, &targets).is_some());
    assert!(gun.tick_shoot(TowerType::Gun, pos, 100, &targets).is_none());
}

#[test]
fn no_target_means_no_shot() {
    let mut gun = Tower::new(TowerType::Gun);
    let targets: Vec<Vec3Milli> = vec![];
    assert!(gun.tick_shoot(TowerType::Gun, Vec3Milli { x: 0, y: 0, z: 0 }, 200, &targets).is_none());
}
