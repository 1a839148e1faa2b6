//! Enemies: path-following movement, damage, and the single terminal
//! outcome of every enemy — killed by damage, or reaching the portal.
//!
//! Progress along the path is continuous state, accumulated each tick from
//! the enemy's speed and the frame's delta time; it never decreases while
//! the enemy lives, so pausing and resuming the simulation preserves the
//! position.

use vstd::prelude::*;
use crate::geometry::{dist, Vec3Milli, distance};
use crate::path::{position_at_spec, total_len, PathManager};
use crate::state::KILL_REWARD;
use crate::tower::clamp_u64;

verus! {

/// Speed of a freshly spawned enemy (1.5 world units per second).
pub const ENEMY_SPEED: u64 = 1_500;

/// Health of a freshly spawned enemy (2.0 health points).
pub const ENEMY_HEALTH: i64 = 2_000;

/// A live enemy: its speed in milli-units per second, its health in milli
/// points, and how far along the path it has walked.
#[derive(Clone, Copy, Debug, PartialEq, Eq, Structural)]
pub struct Enemy {
    pub speed: u64,
    pub health: i64,
    pub progress: u64,
}

/// The one terminal outcome of an enemy's life.
#[derive(Clone, Copy, Debug, PartialEq, Eq, Structural)]
pub enum EnemyOutcome {
    Killed { reward: i64 },
    ReachedPortal,
}

impl Enemy {
    /// A freshly spawned enemy at the start of the path.
    pub fn new() -> (e: Enemy)
        ensures
            e == (Enemy { speed: ENEMY_SPEED, health: ENEMY_HEALTH, progress: 0 }),
    {
        Enemy { speed: ENEMY_SPEED, health: ENEMY_HEALTH, progress: 0 }
    }

    /// The progress after one tick: the distance covered in `dt`
    /// milliseconds at the enemy's speed, clamped at the machine maximum.
    pub open spec fn spec_advanced(self, dt: u64) -> u64 {
        clamp_u64(self.progress + self.speed * dt / 1000)
    }

    /// Walk for `dt` milliseconds: only the progress changes, and it never
    /// decreases.
    pub fn advance(&mut self, dt: u64)
        ensures
            *final(self) == (Enemy { progress: old(self).spec_advanced(dt), ..*old(self) }),
            final(self).progress >= old(self).progress,
    {
        proof {
            Self::lemma_progress_monotone(*self, dt);
            vstd::arithmetic::mul::lemma_mul_upper_bound(
                self.speed as int,
                u64::MAX as int,
                dt as int,
                u64::MAX as int,
            );
            vstd::arithmetic::mul::lemma_mul_nonnegative(self.speed as int, dt as int);
            vstd::arithmetic::div_mod::lemma_div_nonincreasing(
                self.speed as int * dt as int,
                1000,
            );
        }
        let step: u128 = (self.speed as u128) * (dt as u128) / 1000;
        let total: u128 = self.progress as u128 + step;
        self.progress = if total > u64::MAX as u128 {
            u64::MAX
        } else {
            total as u64
        };
    }

    /// Progress is monotone: however small or large the tick, walking never
    /// moves an enemy backward along the path.
    pub proof fn lemma_progress_monotone(e: Enemy, dt: u64)
        ensures
            e.spec_advanced(dt) >= e.progress,
    {
        vstd::arithmetic::mul::lemma_mul_nonnegative(e.speed as int, dt as int);
        vstd::arithmetic::div_mod::lemma_div_pos_is_pos(e.speed as int * dt as int, 1000);
    }

    /// The health left after a hit of the given force: damage is one tenth
    /// of the force, floored at the machine minimum.
    pub open spec fn spec_health_after_hit(self, force: u64) -> i64 {
        if self.health - force / 10 >= i64::MIN {
            (self.health - force / 10) as i64
        } else {
            i64::MIN
        }
    }

    /// Take one hit: health drops by a tenth of the force; the result says
    /// whether this killed the enemy (health at or below zero).
    pub fn apply_hit(&mut self, force: u64) -> (killed: bool)
        ensures
            *final(self) == (Enemy { health: old(self).spec_health_after_hit(force), ..*old(self) }),
            killed <==> final(self).health <= 0,
    {
        let damage = (force / 10) as i64;
        self.health = match self.health.checked_sub(damage) {
            Some(h) => h,
            None => i64::MIN,
        };
        self.health <= 0
    }
}

/// An enemy that has walked the whole path stands exactly on the final
/// waypoint, so the reach-portal check (distance within the despawn
/// distance) always fires for it: an enemy that nothing kills is eventually
/// removed through the portal.
pub proof fn lemma_past_end_reaches_portal(wps: Seq<crate::path::Proxy>, progress: int, despawn_distance: u64)
    requires
        wps.len() > 0,
        progress >= total_len(wps),
    ensures
        dist(position_at_spec(wps, progress), wps.last().location) <= despawn_distance,
{
    crate::path::lemma_position_clamps_past_end(wps, progress);
    let e = wps.last().location;
    assert(crate::geometry::dist_sq(e, e) == 0) by {
        assert((e.x - e.x) * (e.x - e.x) == 0) by (nonlinear_arith);
        assert((e.y - e.y) * (e.y - e.y) == 0) by (nonlinear_arith);
        assert((e.z - e.z) * (e.z - e.z) == 0) by (nonlinear_arith);
    }
    assert(crate::geometry::sqrt_floor(0nat) == 0);
}

/// The enemy as one tick leaves it: the tick's damage lands first — a dead
/// enemy stands still where it was hit; a survivor walks on.
pub open spec fn spec_enemy_after_tick(e: Enemy, damage: u64, dt: u64) -> Enemy {
    let after_hit = Enemy { health: e.spec_health_after_hit(damage), ..e };
    if after_hit.health <= 0 {
        after_hit
    } else {
        Enemy { progress: after_hit.spec_advanced(dt), ..after_hit }
    }
}

/// The outcome one tick deals an enemy: killed by the tick's damage (paying
/// the fixed reward), or — having survived and walked on — reaching the
/// portal when its new position is within the despawn distance of the
/// path's end; otherwise the enemy lives on. Never more than one outcome.
pub open spec fn spec_enemy_outcome(
    e: Enemy,
    damage: u64,
    dt: u64,
    wps: Seq<crate::path::Proxy>,
    despawn_distance: u64,
) -> Option<EnemyOutcome>
    recommends
        wps.len() > 0,
{
    let after = spec_enemy_after_tick(e, damage, dt);
    if after.health <= 0 {
        Some(EnemyOutcome::Killed { reward: KILL_REWARD })
    } else if dist(position_at_spec(wps, after.progress as int), wps.last().location)
        <= despawn_distance {
        Some(EnemyOutcome::ReachedPortal)
    } else {
        None
    }
}

/// One enemy's tick: the damage dealt this tick is applied first — a kill
/// despawns the enemy where it stands and pays the fixed reward. A survivor
/// walks on and, if its new position is within the despawn distance of the
/// path's end, reaches the portal. At most one outcome per tick, and a kill
/// and a portal-reach never both.
pub fn enemy_tick(e: &mut Enemy, damage: u64, dt: u64, path: &PathManager) -> (r: (
    Option<EnemyOutcome>,
    Vec3Milli,
))
    requires
        path.wf(),
        path.waypoints@.len() > 0,
    ensures
        *final(e) == spec_enemy_after_tick(*old(e), damage, dt),
        r.0 == spec_enemy_outcome(
            *old(e),
            damage,
            dt,
            path.waypoints@,
            path.despawn_distance,
        ),
        r.1 == position_at_spec(path.waypoints@, final(e).progress as int),
        final(e).progress >= old(e).progress,
{
    let killed = e.apply_hit(damage);
    if killed {
        let pos = path.get_position(e.progress);
        return (Some(EnemyOutcome::Killed { reward: KILL_REWARD }), pos);
    }
    e.advance(dt);
    let pos = path.get_position(e.progress);
    let end = path.waypoints[path.waypoints.len() - 1].location;
    let d = distance(&pos, &end);
    if d <= path.despawn_distance {
        (Some(EnemyOutcome::ReachedPortal), pos)
    } else {
        (None, pos)
    }
}

} // verus!
