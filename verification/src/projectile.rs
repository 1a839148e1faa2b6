//! Projectiles: straight-line and homing movement, the finite lifetime, and
//! the self-destruct of a homing projectile whose target is gone.
//!
//! A straight-line projectile fixes its direction at spawn time and never
//! re-aims. A homing projectile recomputes its direction toward its
//! recorded target every tick — and despawns at once, without ever
//! reporting a hit, when that target no longer exists.

use vstd::prelude::*;
use crate::arena::EntityId;
use crate::geometry::{advance_spec, advance_toward, Vec3Milli, STEP_LIMIT};
use crate::timer::{GameTimer, TimerMode};

verus! {

/// A projectile in flight: its aim (a fixed direction, or a homing target),
/// its speed in milli-units per second, the damage force it carries, and
/// the lifetime after which it burns out on its own.
#[derive(Clone, Copy, Debug)]
pub struct Projectile {
    pub direction: Option<Vec3Milli>,
    pub speed: u64,
    pub force: u64,
    pub target: Option<EntityId>,
    pub lifetime: GameTimer,
}

/// What one movement tick does to a projectile.
#[derive(Clone, Copy, Debug, PartialEq, Eq, Structural)]
pub enum ProjectileStep {
    MoveTo(Vec3Milli),
    Despawn,
}

impl Projectile {
    /// Well-formedness: the lifetime counts down once, and a fixed
    /// direction is a bounded offset.
    pub open spec fn wf(self) -> bool {
        &&& self.lifetime.wf()
        &&& self.lifetime.mode == TimerMode::Once
        &&& match self.direction {
            Some(d) => d.offset_bounded(),
            None => true,
        }
    }

    pub fn new(
        direction: Option<Vec3Milli>,
        speed: u64,
        force: u64,
        target: Option<EntityId>,
        lifetime_ms: u64,
    ) -> (p: Projectile)
        requires
            lifetime_ms >= 1,
            match direction {
                Some(d) => d.offset_bounded(),
                None => true,
            },
        ensures
            p.wf(),
            p.direction == direction,
            p.speed == speed,
            p.force == force,
            p.target == target,
            p.lifetime == (GameTimer {
                duration: lifetime_ms,
                elapsed: 0,
                mode: TimerMode::Once,
                paused: false,
            }),
    {
        Projectile {
            direction,
            speed,
            force,
            target,
            lifetime: GameTimer::new(lifetime_ms, TimerMode::Once),
        }
    }

    /// The distance covered in `dt` milliseconds at the projectile's speed,
    /// capped at the per-tick travel limit.
    pub open spec fn spec_travel(self, dt: u64) -> u64 {
        if self.speed * dt / 1000 > STEP_LIMIT {
            STEP_LIMIT
        } else {
            (self.speed * dt / 1000) as u64
        }
    }

    fn travel(&self, dt: u64) -> (step: u64)
        ensures
            step == self.spec_travel(dt),
            step <= STEP_LIMIT,
    {
        proof {
            vstd::arithmetic::mul::lemma_mul_upper_bound(
                self.speed as int,
                u64::MAX as int,
                dt as int,
                u64::MAX as int,
            );
            vstd::arithmetic::mul::lemma_mul_nonnegative(self.speed as int, dt as int);
            vstd::arithmetic::div_mod::lemma_div_nonincreasing(self.speed as int * dt as int, 1000);
            vstd::arithmetic::div_mod::lemma_div_pos_is_pos(self.speed as int * dt as int, 1000);
        }
        let raw: u128 = (self.speed as u128) * (dt as u128) / 1000;
        if raw > STEP_LIMIT as u128 {
            STEP_LIMIT
        } else {
            raw as u64
        }
    }

    /// One movement tick. A fixed-direction projectile flies its line. A
    /// homing projectile flies toward its target's current position — or
    /// despawns at once when the target no longer exists (`target_pos` is
    /// what the caller could still find of it). A projectile with neither
    /// aim stays where it is.
    pub fn step_movement(&self, self_pos: Vec3Milli, target_pos: Option<Vec3Milli>, dt: u64) -> (r:
        ProjectileStep)
        requires
            self.wf(),
            self_pos.in_bounds(),
            match target_pos {
                Some(t) => t.in_bounds(),
                None => true,
            },
        ensures
            match self.direction {
                Some(d) => r == ProjectileStep::MoveTo(
                    advance_spec(self_pos, d, self.spec_travel(dt) as int),
                ),
                None => match self.target {
                    Some(_) => match target_pos {
                        Some(t) => r == ProjectileStep::MoveTo(
                            advance_spec(
                                self_pos,
                                self_pos.spec_offset_to(t),
                                self.spec_travel(dt) as int,
                            ),
                        ),
                        None => r == ProjectileStep::Despawn,
                    },
                    None => r == ProjectileStep::MoveTo(self_pos),
                },
            },
            r is Despawn ==> self.direction is None && self.target is Some && target_pos is None,
    {
        let step = self.travel(dt);
        match self.direction {
            Some(d) => ProjectileStep::MoveTo(advance_toward(&self_pos, &d, step)),
            None => match self.target {
                Some(_) => match target_pos {
                    Some(t) => {
                        let dir = self_pos.offset_to(&t);
                        ProjectileStep::MoveTo(advance_toward(&self_pos, &dir, step))
                    },
                    None => ProjectileStep::Despawn,
                },
                None => ProjectileStep::MoveTo(self_pos),
            },
        }
    }

    /// Advance the lifetime; the result says whether the projectile burnt
    /// out on this tick and must be removed even though it hit nothing.
    pub fn tick_lifetime(&mut self, dt: u64) -> (expired: bool)
        requires
            old(self).wf(),
        ensures
            final(self).wf(),
            *final(self) == (Projectile { lifetime: old(self).lifetime.spec_tick(dt), ..*old(self) }),
            expired == old(self).lifetime.spec_fires(dt),
    {
        self.lifetime.tick(dt)
    }
}

} // verus!
