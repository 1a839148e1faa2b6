//! Towers: purchase and upgrade pricing, upgrade application, the
//! per-tower shooting cooldown, nearest-enemy selection and the ballistic
//! profile of the dispatched projectile.
//!
//! Prices and stat magnitudes are in milli-units (a price of 500.0 game
//! units is `500_000` here); upgrade payloads carry the chosen force times
//! one thousand.

use vstd::prelude::*;
use crate::geometry::{dist_sq, distance_sq, translate_clamped, translate_clamped_exec, Vec3Milli};
use crate::timer::{GameTimer, TimerMode};
use vstd::arithmetic::mul::{lemma_mul_nonnegative, lemma_mul_strictly_positive, lemma_mul_upper_bound};

verus! {

/// Largest force multiplier a purchase accepts; keeps every price product
/// inside the machine range.
pub const FORCE_LIMIT: i32 = 100_000;

/// Largest stat magnitude an upgrade may carry, in milli-units
/// (`FORCE_LIMIT` scaled by one thousand).
pub const PAYLOAD_LIMIT: u64 = 100_000_000;

#[derive(Clone, Copy, Debug, PartialEq, Eq, Structural)]
pub enum TowerType {
    Gun,
    Rocket,
    Sniper,
}

/// An integer clamped into the `u64` range.
pub open spec fn clamp_u64(x: int) -> u64 {
    if x > u64::MAX {
        u64::MAX
    } else if x < 0 {
        0u64
    } else {
        x as u64
    }
}

impl TowerType {
    /// Purchase price before wave scaling, in milli-money.
    pub open spec fn spec_base_price(self) -> int {
        match self {
            TowerType::Gun => 500_000,
            TowerType::Rocket => 650_000,
            TowerType::Sniper => 600_000,
        }
    }

    /// Purchase price: the base price times the wave multiplier, floored
    /// at one.
    pub open spec fn spec_price(self, wave_multiplier: i32) -> int {
        self.spec_base_price() * (
        if wave_multiplier <= 0 {
            1
        } else {
            wave_multiplier as int
        })
    }

    pub fn get_price(&self, wave_multiplier: i32) -> (p: i64)
        ensures
            p == self.spec_price(wave_multiplier),
            0 < p,
    {
        let w: i64 = if wave_multiplier <= 0 {
            1
        } else {
            wave_multiplier as i64
        };
        let base: i64 = match self {
            TowerType::Gun => 500_000,
            TowerType::Rocket => 650_000,
            TowerType::Sniper => 600_000,
        };
        proof {
            lemma_mul_upper_bound(base as int, 650_000, w as int, 2_147_483_647);
            lemma_mul_strictly_positive(base as int, w as int);
        }
        base * w
    }

    /// Shooting cooldown of a freshly built tower, in milliseconds.
    pub open spec fn spec_cooldown_ms(self) -> u64 {
        match self {
            TowerType::Gun => 200,
            TowerType::Rocket => 1_500,
            TowerType::Sniper => 800,
        }
    }
}

/// An additive stat modifier a tower can buy; the payload is the magnitude
/// in milli-units.
#[derive(Clone, Copy, Debug, PartialEq, Eq, Structural)]
pub enum TowerUpgrades {
    BulletSpeedBuff(u64),
    ForceBuff(u64),
    ShootingSpeedBuff(u64),
    AOE(u64),
}

impl TowerUpgrades {
    pub open spec fn spec_payload(self) -> u64 {
        match self {
            TowerUpgrades::BulletSpeedBuff(v) => v,
            TowerUpgrades::ForceBuff(v) => v,
            TowerUpgrades::ShootingSpeedBuff(v) => v,
            TowerUpgrades::AOE(v) => v,
        }
    }

    /// Upgrade price in milli-money: a per-kind base plus a per-kind scale
    /// times the wave multiplier (floored at one) times the chosen force.
    pub open spec fn spec_price(self, wave_multiplier: i32, force: i32) -> int {
        let w: int = if wave_multiplier <= 0 {
            1
        } else {
            wave_multiplier as int
        };
        match self {
            TowerUpgrades::BulletSpeedBuff(_) => 100_000 + 1_050 * (w * force),
            TowerUpgrades::ForceBuff(_) => 100_000 + 1_050 * (w * force),
            TowerUpgrades::AOE(_) => 200_000 + 2_050 * (w * force),
            TowerUpgrades::ShootingSpeedBuff(_) => 500_000 + 5_050 * (w * force),
        }
    }

    pub fn get_price(&self, wave_multiplier: i32, force: i32) -> (p: i64)
        requires
            0 <= force <= FORCE_LIMIT,
        ensures
            p == self.spec_price(wave_multiplier, force),
            p >= 100_000,
    {
        let w: i64 = if wave_multiplier <= 0 {
            1
        } else {
            wave_multiplier as i64
        };
        proof {
            lemma_mul_upper_bound(w as int, 2_147_483_647, force as int, 100_000);
            lemma_mul_nonnegative(w as int, force as int);
        }
        let wf_product: i64 = w * (force as i64);
        proof {
            lemma_mul_upper_bound(5_050, 5_050, wf_product as int, 214_748_364_700_000);
            lemma_mul_nonnegative(5_050, wf_product as int);
            lemma_mul_upper_bound(2_050, 2_050, wf_product as int, 214_748_364_700_000);
            lemma_mul_nonnegative(2_050, wf_product as int);
            lemma_mul_upper_bound(1_050, 1_050, wf_product as int, 214_748_364_700_000);
            lemma_mul_nonnegative(1_050, wf_product as int);
        }
        match self {
            TowerUpgrades::BulletSpeedBuff(_) => 100_000 + 1_050 * wf_product,
            TowerUpgrades::ForceBuff(_) => 100_000 + 1_050 * wf_product,
            TowerUpgrades::AOE(_) => 200_000 + 2_050 * wf_product,
            TowerUpgrades::ShootingSpeedBuff(_) => 500_000 + 5_050 * wf_product,
        }
    }

    /// The same upgrade kind carrying the given magnitude instead.
    pub open spec fn spec_set_force(self, force_milli: u64) -> TowerUpgrades {
        match self {
            TowerUpgrades::BulletSpeedBuff(_) => TowerUpgrades::BulletSpeedBuff(force_milli),
            TowerUpgrades::ForceBuff(_) => TowerUpgrades::ForceBuff(force_milli),
            TowerUpgrades::ShootingSpeedBuff(_) => TowerUpgrades::ShootingSpeedBuff(force_milli),
            TowerUpgrades::AOE(_) => TowerUpgrades::AOE(force_milli),
        }
    }

    pub fn set_force(self, force_milli: u64) -> (r: TowerUpgrades)
        ensures
            r == self.spec_set_force(force_milli),
    {
        match self {
            TowerUpgrades::BulletSpeedBuff(_) => TowerUpgrades::BulletSpeedBuff(force_milli),
            TowerUpgrades::ForceBuff(_) => TowerUpgrades::ForceBuff(force_milli),
            TowerUpgrades::ShootingSpeedBuff(_) => TowerUpgrades::ShootingSpeedBuff(force_milli),
            TowerUpgrades::AOE(_) => TowerUpgrades::AOE(force_milli),
        }
    }
}

/// A secondary modifier granted probabilistically at upgrade time; the
/// payload is the magnitude in milli-units.
#[derive(Clone, Copy, Debug, PartialEq, Eq, Structural)]
pub enum TowerSideEffects {
    WeakShot(u64),
    HealShot(u64),
}

/// The draw weights for {no side effect, weak shot, heal shot}, in
/// milli-weight: a fixed weight for "none" and wave- and force-scaled
/// weights for the two effects.
pub open spec fn spec_side_effect_weights(wave_multiplier: i32, force: i32) -> Seq<u64> {
    let w: int = if wave_multiplier <= 0 {
        1
    } else {
        wave_multiplier as int
    };
    seq![100_000u64, (500 * (w * force)) as u64, (200 * (w * force)) as u64]
}

impl TowerSideEffects {
    pub fn get_weights(wave_multiplier: i32, force: i32) -> (r: Vec<u64>)
        requires
            0 <= force <= FORCE_LIMIT,
        ensures
            r@ == spec_side_effect_weights(wave_multiplier, force),
            r@.len() == 3,
            r@[0] == 100_000,
            r@[1] <= 107_374_182_350_000_000,
            r@[2] <= 42_949_672_940_000_000,
    {
        let w: u64 = if wave_multiplier <= 0 {
            1
        } else {
            wave_multiplier as u64
        };
        proof {
            lemma_mul_upper_bound(w as int, 2_147_483_647, force as int, 100_000);
            lemma_mul_nonnegative(w as int, force as int);
            lemma_mul_upper_bound(500, 500, w as int * force as int, 214_748_364_700_000);
            lemma_mul_nonnegative(500, w as int * force as int);
            lemma_mul_upper_bound(200, 200, w as int * force as int, 214_748_364_700_000);
            lemma_mul_nonnegative(200, w as int * force as int);
        }
        let wf_product: u64 = w * (force as u64);
        let r: Vec<u64> = vec![100_000u64, 500 * wf_product, 200 * wf_product];
        proof {
            assert(r@ =~= spec_side_effect_weights(wave_multiplier, force));
        }
        r
    }
}

/// Sum of the bullet-speed bonuses among the applied upgrades.
pub open spec fn sum_speed_bonus(s: Seq<TowerUpgrades>) -> int
    decreases s.len(),
{
    if s.len() == 0 {
        0
    } else {
        sum_speed_bonus(s.drop_last()) + match s.last() {
            TowerUpgrades::BulletSpeedBuff(v) => v as int,
            _ => 0,
        }
    }
}

/// Sum of the force bonuses among the applied upgrades.
pub open spec fn sum_force_bonus(s: Seq<TowerUpgrades>) -> int
    decreases s.len(),
{
    if s.len() == 0 {
        0
    } else {
        sum_force_bonus(s.drop_last()) + match s.last() {
            TowerUpgrades::ForceBuff(v) => v as int,
            _ => 0,
        }
    }
}

/// Sum of the area-of-effect bonuses among the applied upgrades.
pub open spec fn sum_aoe_bonus(s: Seq<TowerUpgrades>) -> int
    decreases s.len(),
{
    if s.len() == 0 {
        0
    } else {
        sum_aoe_bonus(s.drop_last()) + match s.last() {
            TowerUpgrades::AOE(v) => v as int,
            _ => 0,
        }
    }
}

/// A persistent tower: its shooting cooldown, the offset of its muzzle
/// above its base, and the upgrade and side-effect lists applied to it.
#[derive(Debug)]
pub struct Tower {
    pub shooting_timer: GameTimer,
    pub bullet_offset: Vec3Milli,
    pub upgrades: Vec<TowerUpgrades>,
    pub side_effects: Vec<TowerSideEffects>,
}

impl Tower {
    /// Well-formedness: the cooldown timer repeats, the muzzle offset is a
    /// bounded offset, and every upgrade magnitude is within the payload
    /// limit.
    pub open spec fn wf(self) -> bool {
        &&& self.shooting_timer.wf()
        &&& self.shooting_timer.mode == TimerMode::Repeating
        &&& self.bullet_offset.offset_bounded()
        &&& forall|i: int|
            0 <= i < self.upgrades@.len() ==> (#[trigger] self.upgrades@[i]).spec_payload()
                <= PAYLOAD_LIMIT
    }

    /// A freshly built tower of the given type: per-type cooldown, the
    /// standard muzzle offset, no upgrades, no side effects.
    pub fn new(tower_type: TowerType) -> (t: Tower)
        ensures
            t.wf(),
            t.shooting_timer == (GameTimer {
                duration: tower_type.spec_cooldown_ms(),
                elapsed: 0,
                mode: TimerMode::Repeating,
                paused: false,
            }),
            t.bullet_offset == (Vec3Milli { x: 0, y: 1_200, z: 0 }),
            t.upgrades@.len() == 0,
            t.side_effects@.len() == 0,
    {
        let cooldown: u64 = match tower_type {
            TowerType::Gun => 200,
            TowerType::Rocket => 1_500,
            TowerType::Sniper => 800,
        };
        Tower {
            shooting_timer: GameTimer::new(cooldown, TimerMode::Repeating),
            bullet_offset: Vec3Milli { x: 0, y: 1_200, z: 0 },
            upgrades: Vec::new(),
            side_effects: Vec::new(),
        }
    }

    /// Apply one purchased upgrade: a shooting-speed buff permanently
    /// shortens the cooldown (one tenth of its magnitude, in milliseconds,
    /// floored at one); any other upgrade is recorded in the stat bag. A
    /// rolled side effect is recorded alongside.
    pub fn apply_upgrade(&mut self, effect: TowerUpgrades, side_effect: Option<TowerSideEffects>)
        requires
            old(self).wf(),
            effect.spec_payload() <= PAYLOAD_LIMIT,
        ensures
            final(self).wf(),
            final(self).bullet_offset == old(self).bullet_offset,
            match effect {
                TowerUpgrades::ShootingSpeedBuff(v) => final(self).shooting_timer
                    == old(self).shooting_timer.spec_shorten((v / 10) as u64)
                    && final(self).upgrades@ == old(self).upgrades@,
                _ => final(self).shooting_timer == old(self).shooting_timer
                    && final(self).upgrades@ == old(self).upgrades@.push(effect),
            },
            match side_effect {
                Some(se) => final(self).side_effects@ == old(self).side_effects@.push(se),
                None => final(self).side_effects@ == old(self).side_effects@,
            },
    {
        match effect {
            TowerUpgrades::ShootingSpeedBuff(v) => {
                self.shooting_timer.shorten_duration(v / 10);
            },
            _ => {
                self.upgrades.push(effect);
            },
        }
        match side_effect {
            Some(se) => {
                self.side_effects.push(se);
            },
            None => {},
        }
    }

    /// A copy of the tower's side-effect list, handed to each projectile it
    /// fires.
    pub fn side_effect_bundle(&self) -> (r: Vec<TowerSideEffects>)
        ensures
            r@ == self.side_effects@,
    {
        let n = self.side_effects.len();
        let mut r: Vec<TowerSideEffects> = Vec::new();
        let mut i: usize = 0;
        proof {
            assert(self.side_effects@.take(0) =~= Seq::<TowerSideEffects>::empty());
        }
        while i < n
            invariant
                n == self.side_effects@.len(),
                i <= n,
                r@ == self.side_effects@.take(i as int),
            decreases n - i,
        {
            r.push(self.side_effects[i]);
            proof {
                assert(self.side_effects@.take(i as int).push(self.side_effects@[i as int])
                    =~= self.side_effects@.take(i as int + 1));
            }
            i += 1;
        }
        proof {
            assert(self.side_effects@.take(n as int) =~= self.side_effects@);
        }
        r
    }

    /// The speed, force and area-of-effect bonuses of the applied upgrades,
    /// each the sum of its kind's magnitudes (clamped at the machine
    /// maximum).
    pub fn shot_modifiers(&self) -> (r: (u64, u64, u64))
        ensures
            r.0 == clamp_u64(sum_speed_bonus(self.upgrades@)),
            r.1 == clamp_u64(sum_force_bonus(self.upgrades@)),
            r.2 == clamp_u64(sum_aoe_bonus(self.upgrades@)),
    {
        let n = self.upgrades.len();
        let mut speed: u64 = 0;
        let mut force: u64 = 0;
        let mut aoe: u64 = 0;
        let mut i: usize = 0;
        proof {
            assert(self.upgrades@.take(0) =~= Seq::<TowerUpgrades>::empty());
        }
        while i < n
            invariant
                n == self.upgrades@.len(),
                i <= n,
                sum_speed_bonus(self.upgrades@.take(i as int)) >= 0,
                sum_force_bonus(self.upgrades@.take(i as int)) >= 0,
                sum_aoe_bonus(self.upgrades@.take(i as int)) >= 0,
                speed == clamp_u64(sum_speed_bonus(self.upgrades@.take(i as int))),
                force == clamp_u64(sum_force_bonus(self.upgrades@.take(i as int))),
                aoe == clamp_u64(sum_aoe_bonus(self.upgrades@.take(i as int))),
            decreases n - i,
        {
            proof {
                assert(self.upgrades@.take(i as int + 1).drop_last() =~= self.upgrades@.take(
                    i as int,
                ));
                assert(self.upgrades@.take(i as int + 1).last() == self.upgrades@[i as int]);
            }
            match self.upgrades[i] {
                TowerUpgrades::BulletSpeedBuff(v) => {
                    speed = speed.saturating_add(v);
                },
                TowerUpgrades::ForceBuff(v) => {
                    force = force.saturating_add(v);
                },
                TowerUpgrades::AOE(v) => {
                    aoe = aoe.saturating_add(v);
                },
                TowerUpgrades::ShootingSpeedBuff(_) => {},
            }
            i += 1;
        }
        proof {
            assert(self.upgrades@.take(n as int) =~= self.upgrades@);
        }
        (speed, force, aoe)
    }
}

/// The dispatch order for one projectile: its aim mode, initial stats and
/// lifetime. A straight-line shot carries a fixed direction; a homing shot
/// follows its target entity instead.
#[derive(Clone, Copy, Debug)]
pub struct ProjectileSpawn {
    pub direction: Option<Vec3Milli>,
    pub homing: bool,
    pub speed: u64,
    pub force: u64,
    pub lifetime_ms: u64,
}

/// The ballistic profile for one shot of the given tower at the given
/// target: per-type base speed, force and lifetime, with the tower's
/// additive bonuses; a gun shot fixes its direction toward the target at
/// fire time, rockets and snipers home on the target entity.
pub open spec fn spec_projectile_for(
    tower_type: TowerType,
    upgrades: Seq<TowerUpgrades>,
    tower_pos: Vec3Milli,
    target_pos: Vec3Milli,
) -> ProjectileSpawn {
    let speed_bonus = clamp_u64(sum_speed_bonus(upgrades)) as int;
    let force_bonus = clamp_u64(sum_force_bonus(upgrades)) as int;
    match tower_type {
        TowerType::Gun => ProjectileSpawn {
            direction: Some(tower_pos.spec_offset_to(target_pos)),
            homing: false,
            speed: clamp_u64(60_000 + speed_bonus),
            force: clamp_u64(1_000 + force_bonus),
            lifetime_ms: 1_500,
        },
        TowerType::Rocket => ProjectileSpawn {
            direction: None,
            homing: true,
            speed: clamp_u64(10_000 + speed_bonus),
            force: clamp_u64(10_000 + force_bonus),
            lifetime_ms: 10_000,
        },
        TowerType::Sniper => ProjectileSpawn {
            direction: None,
            homing: true,
            speed: clamp_u64(100_000 + speed_bonus),
            force: clamp_u64(2_000 + force_bonus),
            lifetime_ms: 9_000,
        },
    }
}

/// Index `i` holds the first target at minimal distance from `from`.
pub open spec fn nearest_first(targets: Seq<Vec3Milli>, from: Vec3Milli, i: int) -> bool {
    &&& 0 <= i < targets.len()
    &&& forall|j: int|
        0 <= j < targets.len() ==> dist_sq(targets[i], from) <= dist_sq(
            #[trigger] targets[j],
            from,
        )
    &&& forall|j: int|
        0 <= j < i ==> dist_sq(#[trigger] targets[j], from) > dist_sq(targets[i], from)
}

/// The first target closest to `from` (ties keep the earliest), or nothing
/// when no target is alive.
pub fn nearest_index(targets: &Vec<Vec3Milli>, from: &Vec3Milli) -> (r: Option<usize>)
    requires
        from.in_bounds(),
        forall|i: int| 0 <= i < targets@.len() ==> (#[trigger] targets@[i]).in_bounds(),
    ensures
        r is None <==> targets@.len() == 0,
        match r {
            Some(i) => nearest_first(targets@, *from, i as int),
            None => true,
        },
{
    let n = targets.len();
    if n == 0 {
        return None;
    }
    let mut best: usize = 0;
    let mut best_d: u64 = distance_sq(&targets[0], from);
    let mut j: usize = 1;
    while j < n
        invariant
            n == targets@.len(),
            from.in_bounds(),
            forall|i: int| 0 <= i < targets@.len() ==> (#[trigger] targets@[i]).in_bounds(),
            0 <= best < j <= n,
            best_d == dist_sq(targets@[best as int], *from),
            forall|k: int|
                0 <= k < j ==> best_d <= dist_sq(#[trigger] targets@[k], *from),
            forall|k: int|
                0 <= k < best ==> dist_sq(#[trigger] targets@[k], *from) > best_d,
        decreases n - j,
    {
        let d = distance_sq(&targets[j], from);
        if d < best_d {
            best = j;
            best_d = d;
        }
        j += 1;
    }
    Some(best)
}

impl Tower {
    /// One tower tick: advance the cooldown by `dt`; when it completes and
    /// at least one target is alive, dispatch exactly one projectile at the
    /// first target nearest to the muzzle, with this tower's ballistic
    /// profile. Nothing but the cooldown timer changes on the tower.
    pub fn tick_shoot(
        &mut self,
        tower_type: TowerType,
        tower_pos: Vec3Milli,
        dt: u64,
        targets: &Vec<Vec3Milli>,
    ) -> (r: Option<(usize, ProjectileSpawn)>)
        requires
            old(self).wf(),
            tower_pos.in_bounds(),
            forall|i: int| 0 <= i < targets@.len() ==> (#[trigger] targets@[i]).in_bounds(),
        ensures
            final(self).wf(),
            final(self).shooting_timer == old(self).shooting_timer.spec_tick(dt),
            final(self).bullet_offset == old(self).bullet_offset,
            final(self).upgrades@ == old(self).upgrades@,
            final(self).side_effects@ == old(self).side_effects@,
            r is Some <==> (old(self).shooting_timer.spec_fires(dt) && targets@.len() > 0),
            match r {
                Some((i, ps)) => nearest_first(
                    targets@,
                    translate_clamped(tower_pos, old(self).bullet_offset),
                    i as int,
                ) && ps == spec_projectile_for(
                    tower_type,
                    old(self).upgrades@,
                    tower_pos,
                    targets@[i as int],
                ),
                None => true,
            },
    {
        let fired = self.shooting_timer.tick(dt);
        if !fired {
            return None;
        }
        let muzzle = translate_clamped_exec(&tower_pos, &self.bullet_offset);
        match nearest_index(targets, &muzzle) {
            None => None,
            Some(i) => {
                let target_pos = targets[i];
                let (speed_bonus, force_bonus, _aoe_bonus) = self.shot_modifiers();
                let ps = match tower_type {
                    TowerType::Gun => ProjectileSpawn {
                        direction: Some(tower_pos.offset_to(&target_pos)),
                        homing: false,
                        speed: 60_000u64.saturating_add(speed_bonus),
                        force: 1_000u64.saturating_add(force_bonus),
                        lifetime_ms: 1_500,
                    },
                    TowerType::Rocket => ProjectileSpawn {
                        direction: None,
                        homing: true,
                        speed: 10_000u64.saturating_add(speed_bonus),
                        force: 10_000u64.saturating_add(force_bonus),
                        lifetime_ms: 10_000,
                    },
                    TowerType::Sniper => ProjectileSpawn {
                        direction: None,
                        homing: true,
                        speed: 100_000u64.saturating_add(speed_bonus),
                        force: 2_000u64.saturating_add(force_bonus),
                        lifetime_ms: 9_000,
                    },
                };
                Some((i, ps))
            },
        }
    }
}

} // verus!
