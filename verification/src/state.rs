//! The wave/economy state machine: game state, wave and spawn timers, money,
//! health, kill and wave counters.
//!
//! The machine starts in `TowerUpgrade`. `StartWave` (and nothing else)
//! moves it to `RunningWave`; the wave timer's expiry (and nothing else)
//! moves it back. `GameWon` and `GameLost` are terminal: once entered, no
//! event changes the state again and the spawn timer stays paused.
//!
//! Money and health are in milli-units: a reward of 50.0 game units is
//! `50_000` here.

use vstd::prelude::*;
use crate::timer::{GameTimer, TimerMode};

verus! {

/// Money every session starts with (1000.0 game units).
pub const STARTING_MONEY: i64 = 1_000_000;

/// Health every session starts with (5.0 game units).
pub const STARTING_HEALTH: i64 = 5_000;

/// Health lost when one enemy reaches the portal (1.0 game unit).
pub const PORTAL_DAMAGE: i64 = 1_000;

/// Reward paid for one killed enemy (50.0 game units).
pub const KILL_REWARD: i64 = 50_000;

/// Duration of one wave, in milliseconds.
pub const WAVE_DURATION_MS: u64 = 40_000;

/// Interval between two enemy spawns, in milliseconds.
pub const SPAWN_INTERVAL_MS: u64 = 1_500;

/// Price of one heal (100.0 game units).
pub const HEAL_COST: i64 = 100_000;

/// Health restored by one heal (5.0 game units).
pub const HEAL_AMOUNT: i64 = 5_000;

#[derive(Clone, Copy, Debug, PartialEq, Eq, Structural)]
pub enum GameState {
    RunningWave,
    TowerUpgrade,
    GameWon,
    GameLost,
}

/// A terminal state admits no further transition.
pub open spec fn terminal_state(s: GameState) -> bool {
    s is GameWon || s is GameLost
}

/// A signal into the state machine, in emission order within a tick.
#[derive(Clone, Copy, Debug, PartialEq, Eq, Structural)]
pub enum StateUpdateEvent {
    EnemyKilled { reward: i64 },
    EnemyReachedPortal,
    StartWave { time_of_wave: u64, spawn_interval: u64 },
    GameWon,
    GameLost,
    EndWave,
}

impl StateUpdateEvent {
    /// An event the machine accepts: rewards are payments, and a started
    /// wave has positive timer durations.
    pub open spec fn wf(self) -> bool {
        match self {
            StateUpdateEvent::EnemyKilled { reward } => reward >= 0,
            StateUpdateEvent::StartWave { time_of_wave, spawn_interval } => time_of_wave >= 1
                && spawn_interval >= 1,
            _ => true,
        }
    }
}

/// The wave/economy singleton.
#[derive(Clone, Copy, Debug, PartialEq, Eq, Structural)]
pub struct WaveState {
    pub game_state: GameState,
    pub wave_timer: GameTimer,
    pub spawn_timer: GameTimer,
    pub money: i64,
    pub health: i64,
    pub enemies_killed: u64,
    pub waves_finished: u32,
}

/// Addition on money clamped at the machine maximum.
pub open spec fn money_plus(m: i64, r: i64) -> i64
    recommends
        m >= 0,
        r >= 0,
{
    if m + r <= i64::MAX {
        (m + r) as i64
    } else {
        i64::MAX
    }
}

impl WaveState {
    /// Well-formedness: the timers are well-formed with their proper modes,
    /// money never goes negative, and health is non-negative until the
    /// session is lost (it drops below zero exactly once, on the losing
    /// event).
    pub open spec fn wf(self) -> bool {
        &&& self.wave_timer.wf()
        &&& self.spawn_timer.wf()
        &&& self.wave_timer.mode == TimerMode::Once
        &&& self.spawn_timer.mode == TimerMode::Repeating
        &&& self.money >= 0
        &&& self.health >= -PORTAL_DAMAGE
        &&& !terminal_state(self.game_state) ==> self.health >= 0
    }

    /// The initial session: upgrading phase, starting stakes, both timers
    /// configured but paused until the first wave starts.
    pub open spec fn spec_init() -> WaveState {
        WaveState {
            game_state: GameState::TowerUpgrade,
            wave_timer: GameTimer {
                duration: WAVE_DURATION_MS,
                elapsed: 0,
                mode: TimerMode::Once,
                paused: true,
            },
            spawn_timer: GameTimer {
                duration: SPAWN_INTERVAL_MS,
                elapsed: 0,
                mode: TimerMode::Repeating,
                paused: true,
            },
            money: STARTING_MONEY,
            health: STARTING_HEALTH,
            enemies_killed: 0,
            waves_finished: 0,
        }
    }

    pub fn new() -> (s: WaveState)
        ensures
            s == WaveState::spec_init(),
            s.wf(),
    {
        WaveState {
            game_state: GameState::TowerUpgrade,
            wave_timer: GameTimer {
                duration: WAVE_DURATION_MS,
                elapsed: 0,
                mode: TimerMode::Once,
                paused: true,
            },
            spawn_timer: GameTimer {
                duration: SPAWN_INTERVAL_MS,
                elapsed: 0,
                mode: TimerMode::Repeating,
                paused: true,
            },
            money: STARTING_MONEY,
            health: STARTING_HEALTH,
            enemies_killed: 0,
            waves_finished: 0,
        }
    }

    /// The state after one event. Terminal states ignore every event;
    /// `StartWave` acts only from `TowerUpgrade` and `EndWave` only from
    /// `RunningWave`.
    pub open spec fn spec_apply_event(self, e: StateUpdateEvent) -> WaveState {
        if terminal_state(self.game_state) {
            self
        } else {
            match e {
                StateUpdateEvent::EnemyKilled { reward } => WaveState {
                    enemies_killed: if self.enemies_killed < u64::MAX {
                        (self.enemies_killed + 1) as u64
                    } else {
                        u64::MAX
                    },
                    money: money_plus(self.money, reward),
                    ..self
                },
                StateUpdateEvent::EnemyReachedPortal => {
                    let health = (self.health - PORTAL_DAMAGE) as i64;
                    if health < 0 {
                        WaveState {
                            health,
                            game_state: GameState::GameLost,
                            wave_timer: GameTimer { paused: true, ..self.wave_timer },
                            spawn_timer: GameTimer { paused: true, ..self.spawn_timer },
                            ..self
                        }
                    } else {
                        WaveState { health, ..self }
                    }
                },
                StateUpdateEvent::StartWave { time_of_wave, spawn_interval } => {
                    if self.game_state is TowerUpgrade {
                        WaveState {
                            game_state: GameState::RunningWave,
                            wave_timer: GameTimer {
                                duration: time_of_wave,
                                elapsed: 0,
                                mode: TimerMode::Once,
                                paused: false,
                            },
                            spawn_timer: GameTimer {
                                duration: spawn_interval,
                                elapsed: 0,
                                mode: TimerMode::Repeating,
                                paused: false,
                            },
                            ..self
                        }
                    } else {
                        self
                    }
                },
                StateUpdateEvent::GameWon => WaveState {
                    game_state: GameState::GameWon,
                    wave_timer: GameTimer { paused: true, ..self.wave_timer },
                    spawn_timer: GameTimer { paused: true, ..self.spawn_timer },
                    ..self
                },
                StateUpdateEvent::GameLost => WaveState {
                    game_state: GameState::GameLost,
                    wave_timer: GameTimer { paused: true, ..self.wave_timer },
                    spawn_timer: GameTimer { paused: true, ..self.spawn_timer },
                    ..self
                },
                StateUpdateEvent::EndWave => {
                    if self.game_state is RunningWave {
                        WaveState {
                            game_state: GameState::TowerUpgrade,
                            wave_timer: GameTimer { paused: true, ..self.wave_timer },
                            spawn_timer: GameTimer { paused: true, ..self.spawn_timer },
                            waves_finished: if self.waves_finished < u32::MAX {
                                (self.waves_finished + 1) as u32
                            } else {
                                u32::MAX
                            },
                            ..self
                        }
                    } else {
                        self
                    }
                },
            }
        }
    }

    /// Apply one state-update event.
    pub fn apply_event(&mut self, e: &StateUpdateEvent)
        requires
            old(self).wf(),
            e.wf(),
        ensures
            final(self).wf(),
            *final(self) == old(self).spec_apply_event(*e),
    {
        if matches!(self.game_state, GameState::GameWon | GameState::GameLost) {
            return ;
        }
        match e {
            StateUpdateEvent::EnemyKilled { reward } => {
                if self.enemies_killed < u64::MAX {
                    self.enemies_killed = self.enemies_killed + 1;
                }
                self.money = match self.money.checked_add(*reward) {
                    Some(m) => m,
                    None => i64::MAX,
                };
            },
            StateUpdateEvent::EnemyReachedPortal => {
                self.health = self.health - PORTAL_DAMAGE;
                if self.health < 0 {
                    self.game_state = GameState::GameLost;
                    self.wave_timer.pause();
                    self.spawn_timer.pause();
                }
            },
            StateUpdateEvent::StartWave { time_of_wave, spawn_interval } => {
                if matches!(self.game_state, GameState::TowerUpgrade) {
                    self.game_state = GameState::RunningWave;
                    self.wave_timer = GameTimer::new(*time_of_wave, TimerMode::Once);
                    self.spawn_timer = GameTimer::new(*spawn_interval, TimerMode::Repeating);
                }
            },
            StateUpdateEvent::GameWon => {
                self.game_state = GameState::GameWon;
                self.wave_timer.pause();
                self.spawn_timer.pause();
            },
            StateUpdateEvent::GameLost => {
                self.game_state = GameState::GameLost;
                self.wave_timer.pause();
                self.spawn_timer.pause();
            },
            StateUpdateEvent::EndWave => {
                if matches!(self.game_state, GameState::RunningWave) {
                    self.game_state = GameState::TowerUpgrade;
                    self.wave_timer.pause();
                    self.spawn_timer.pause();
                    if self.waves_finished < u32::MAX {
                        self.waves_finished = self.waves_finished + 1;
                    }
                }
            },
        }
    }

    /// The state after the wave timer advances by `dt`: while a wave runs,
    /// the timer ticks, and its expiry (and nothing else) ends the wave.
    pub open spec fn spec_tick_wave(self, dt: u64) -> WaveState {
        if self.game_state is RunningWave {
            let ticked = WaveState { wave_timer: self.wave_timer.spec_tick(dt), ..self };
            if self.wave_timer.spec_fires(dt) {
                ticked.spec_apply_event(StateUpdateEvent::EndWave)
            } else {
                ticked
            }
        } else {
            self
        }
    }

    /// Advance the wave timer; the result says whether the wave ended on
    /// this tick.
    pub fn tick_wave(&mut self, dt: u64) -> (ended: bool)
        requires
            old(self).wf(),
        ensures
            final(self).wf(),
            *final(self) == old(self).spec_tick_wave(dt),
            ended == (old(self).game_state is RunningWave && old(self).wave_timer.spec_fires(dt)),
    {
        if matches!(self.game_state, GameState::RunningWave) {
            let fired = self.wave_timer.tick(dt);
            if fired {
                self.apply_event(&StateUpdateEvent::EndWave);
            }
            fired
        } else {
            false
        }
    }

    /// The state after the spawn timer advances by `dt`: it only runs while
    /// a wave does.
    pub open spec fn spec_tick_spawn(self, dt: u64) -> WaveState {
        if self.game_state is RunningWave {
            WaveState { spawn_timer: self.spawn_timer.spec_tick(dt), ..self }
        } else {
            self
        }
    }

    /// Advance the spawn timer; the result says whether one enemy should
    /// spawn this tick. Nothing ever spawns outside a running wave, in
    /// particular never after the session was won or lost.
    pub fn tick_spawn(&mut self, dt: u64) -> (spawn: bool)
        requires
            old(self).wf(),
        ensures
            final(self).wf(),
            *final(self) == old(self).spec_tick_spawn(dt),
            spawn == (old(self).game_state is RunningWave && old(self).spawn_timer.spec_fires(
                dt,
            )),
            spawn ==> old(self).game_state is RunningWave,
    {
        if matches!(self.game_state, GameState::RunningWave) {
            self.spawn_timer.tick(dt)
        } else {
            false
        }
    }

    /// Buy a heal: while the session is running and the money suffices, the
    /// cost is debited and the health raised in the same step; otherwise
    /// nothing at all changes.
    pub fn try_heal(&mut self) -> (healed: bool)
        requires
            old(self).wf(),
        ensures
            final(self).wf(),
            healed == (!terminal_state(old(self).game_state) && old(self).money >= HEAL_COST),
            healed ==> *final(self) == (WaveState {
                money: (old(self).money - HEAL_COST) as i64,
                health: money_plus(old(self).health, HEAL_AMOUNT),
                ..*old(self)
            }),
            !healed ==> *final(self) == *old(self),
    {
        if matches!(self.game_state, GameState::GameWon | GameState::GameLost) {
            return false;
        }
        if self.money >= HEAL_COST {
            self.money = self.money - HEAL_COST;
            self.health = match self.health.checked_add(HEAL_AMOUNT) {
                Some(h) => h,
                None => i64::MAX,
            };
            true
        } else {
            false
        }
    }

    /// The transition table of the state machine, as laws:
    /// a terminal state admits no transition at all; `RunningWave` is
    /// entered only by `StartWave` from `TowerUpgrade`; `TowerUpgrade` is
    /// re-entered only by `EndWave` from `RunningWave` (which `tick_wave`
    /// emits exactly on wave-timer expiry).
    pub proof fn lemma_state_machine(s: WaveState, e: StateUpdateEvent)
        ensures
            terminal_state(s.game_state) ==> s.spec_apply_event(e) == s,
            s.spec_apply_event(e).game_state is RunningWave && !(s.game_state is RunningWave)
                ==> s.game_state is TowerUpgrade && e is StartWave,
            s.spec_apply_event(e).game_state is TowerUpgrade && !(s.game_state is TowerUpgrade)
                ==> s.game_state is RunningWave && e is EndWave,
            s.game_state is TowerUpgrade && !(e is StartWave) ==> !(s.spec_apply_event(
                e,
            ).game_state is RunningWave),
            s.game_state is RunningWave && !(e is EndWave) ==> !(s.spec_apply_event(
                e,
            ).game_state is TowerUpgrade),
    {
    }

    /// A wave ends exactly when the wave timer expires while the wave runs;
    /// outside `RunningWave` the wave tick changes nothing.
    pub proof fn lemma_wave_ends_only_by_timer(s: WaveState, dt: u64)
        ensures
            !(s.game_state is RunningWave) ==> s.spec_tick_wave(dt) == s,
            s.spec_tick_wave(dt).game_state is TowerUpgrade && s.game_state is RunningWave
                ==> s.wave_timer.spec_fires(dt),
    {
    }
}

impl Default for WaveState {
    /// The initial session state.
    fn default() -> (s: WaveState)
        ensures
            s == WaveState::spec_init(),
            s.wf(),
    {
        WaveState::new()
    }
}

} // verus!
