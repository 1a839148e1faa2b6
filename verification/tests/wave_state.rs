use towerish_side_effects::state::{
    GameState, StateUpdateEvent, WaveState, HEAL_COST, STARTING_HEALTH, STARTING_MONEY,
};
use towerish_side_effects::timer::{GameTimer, TimerMode};

fn start_wave(ws: &mut WaveState) {
    ws.apply_event(&StateUpdateEvent::StartWave { time_of_wave: 40_000, spawn_interval: 1_500 });
}

#[test]
fn initial_state_is_tower_upgrade_with_starting_stakes() {
    let ws = WaveState::new();
    assert_eq!(ws.game_state, GameState::TowerUpgrade);
    assert_eq!(ws.money, STARTING_MONEY);
    assert_eq!(ws.health, STARTING_HEALTH);
    assert_eq!(ws.enemies_killed, 0);
    assert_eq!(ws.waves_finished, 0);
    assert!(ws.spawn_timer.paused);
    assert!(ws.wave_timer.paused);
}

#[test]
fn start_wave_runs_the_timers() {
    let mut ws = WaveState::new();
    start_wave(&mut ws);
    assert_eq!(ws.game_state, GameState::RunningWave);
    assert!(!ws.wave_timer.paused);
    assert!(!ws.spawn_timer.paused);
    assert_eq!(ws.wave_timer.duration, 40_000);
    assert_eq!(ws.spawn_timer.duration, 1_500);
}

#[test]
fn start_wave_is_ignored_outside_tower_upgrade() {
    let mut ws = WaveState::new();
    start_wave(&mut ws);
    let snapshot = ws;
    start_wave(&mut ws);
    assert_eq!(ws, snapshot);
}

/// Health 5.0 loses one point per portal breach; the loss transition fires
/// exactly on the event where health first goes negative.
#[test]
fn portal_breaches_drain_health_then_lose() {
    let mut ws = WaveState::new();
    for _ in 0..3 {
        ws.apply_event(&StateUpdateEvent::EnemyReachedPortal);
    }
    assert_eq!(ws.health, 2_000);
    assert_eq!(ws.game_state, GameState::TowerUpgrade);
    ws.apply_event(&StateUpdateEvent::EnemyReachedPortal);
    ws.apply_event(&StateUpdateEvent::EnemyReachedPortal);
    assert_eq!(ws.health, 0);
    assert_eq!(ws.game_state, GameState::TowerUpgrade);
    ws.apply_event(&StateUpdateEvent::EnemyReachedPortal);
    assert_eq!(ws.health, -1_000);
    assert_eq!(ws.game_state, GameState::GameLost);
}

#[test]
fn portal_breaches_during_wave_keep_it_running() {
    let mut ws = WaveState::new();
    start_wave(&mut ws);
    ws.apply_event(&StateUpdateEvent::EnemyReachedPortal);
    ws.apply_event(&StateUpdateEvent::EnemyReachedPortal);
    assert_eq!(ws.health, 3_000);
    assert_eq!(ws.game_state, GameState::RunningWave);
}

#[test]
fn kill_pays_reward_and_counts() {
    let mut ws = WaveState::new();
    ws.apply_event(&StateUpdateEvent::EnemyKilled { reward: 50_000 });
    assert_eq!(ws.money, STARTING_MONEY + 50_000);
    assert_eq!(ws.enemies_killed, 1);
    assert_eq!(ws.game_state, GameState::TowerUpgrade);
}

/// Wave timer of 40s: delta-times summing to exactly 40s end the wave
/// exactly once, and later ticks never re-fire it.
#[test]
fn wave_ends_exactly_once_at_forty_seconds() {
    let mut ws = WaveState::new();
    start_wave(&mut ws);
    let mut endings: u32 = 0;
    for _ in 0..4 {
        if ws.tick_wave(10_000) {
            endings += 1;
        }
    }
    assert_eq!(endings, 1);
    assert_eq!(ws.game_state, GameState::TowerUpgrade);
    assert_eq!(ws.waves_finished, 1);
    for _ in 0..10 {
        assert!(!ws.tick_wave(10_000));
    }
    assert_eq!(ws.waves_finished, 1);
}

/// A `Once` timer that completes exactly on a tick boundary fires on that
/// tick and never again.
#[test]
fn once_timer_fires_exactly_once() {
    let mut t = GameTimer::new(40_000, TimerMode::Once);
    assert!(!t.tick(39_999));
    assert!(t.tick(1));
    assert!(!t.tick(1));
    assert!(!t.tick(100_000));
}

#[test]
fn repeating_timer_keeps_leftover_time() {
    let mut t = GameTimer::new(1_500, TimerMode::Repeating);
    assert!(!t.tick(1_000));
    assert!(t.tick(1_000));
    assert_eq!(t.elapsed, 500);
    assert!(t.tick(1_000));
    assert_eq!(t.elapsed, 0);
}

#[test]
fn paused_timer_ignores_ticks() {
    let mut t = GameTimer::new(1_000, TimerMode::Once);
    t.pause();
    assert!(!t.tick(5_000));
    assert_eq!(t.elapsed, 0);
    t.unpause();
    assert!(t.tick(5_000));
}

#[test]
fn terminal_states_ignore_every_event() {
    let mut ws = WaveState::new();
    for _ in 0..6 {
        ws.apply_event(&StateUpdateEvent::EnemyReachedPortal);
    }
    assert_eq!(ws.game_state, GameState::GameLost);
    let snapshot = ws;
    start_wave(&mut ws);
    ws.apply_event(&StateUpdateEvent::EnemyKilled { reward: 50_000 });
    ws.apply_event(&StateUpdateEvent::EndWave);
    ws.apply_event(&StateUpdateEvent::GameWon);
    assert_eq!(ws, snapshot);
    assert!(!ws.tick_spawn(10_000));
}

#[test]
fn spawn_timer_only_runs_during_a_wave() {
    let mut ws = WaveState::new();
    assert!(!ws.tick_spawn(10_000));
    start_wave(&mut ws);
    assert!(!ws.tick_spawn(1_000));
    assert!(ws.tick_spawn(500));
    assert!(ws.tick_spawn(1_500));
}

#[test]
fn heal_debits_and_raises_health_atomically() {
    let mut ws = WaveState::new();
    assert!(ws.try_heal());
    assert_eq!(ws.money, STARTING_MONEY - HEAL_COST);
    assert_eq!(ws.health, STARTING_HEALTH + 5_000);
    ws.money = 99_999;
    let snapshot = ws;
    assert!(!ws.try_heal());
    assert_eq!(ws, snapshot);
}
