//! The build/upgrade market: purchase pricing against the session's money,
//! atomic debit-and-dispatch, the validated force input, and the weighted
//! random side-effect roll granted on upgrades.
//!
//! A purchase is rejected outright when the money does not suffice (or the
//! session is over): rejection changes nothing at all. An accepted purchase
//! debits the price and applies the build or upgrade in the same step.

use vstd::prelude::*;
use crate::parse::{int_value, is_int_literal, parse_i32};
use crate::state::{terminal_state, GameState, WaveState};
use crate::tower::{Tower, TowerSideEffects, TowerType, TowerUpgrades, FORCE_LIMIT};

verus! {

/// The wave-count multiplier entering every price: the number of finished
/// waves, floored at one (and clamped into the `i32` range).
pub open spec fn spec_wave_multiplier(waves_finished: u32) -> i32 {
    if waves_finished > i32::MAX {
        i32::MAX
    } else {
        waves_finished as i32
    }
}

fn wave_multiplier(waves_finished: u32) -> (r: i32)
    ensures
        r == spec_wave_multiplier(waves_finished),
        r >= 0,
{
    if waves_finished > 2_147_483_647 {
        2_147_483_647
    } else {
        waves_finished as i32
    }
}

/// The operator's force input, validated: a decimal integer within
/// `[0, FORCE_LIMIT]` is taken as typed; anything else (not a number, a
/// negative number, or one beyond the limit) falls back to one.
pub open spec fn spec_parse_force(s: Seq<u8>) -> i32 {
    if is_int_literal(s) && 0 <= int_value(s) <= FORCE_LIMIT {
        int_value(s) as i32
    } else {
        1
    }
}

/// Validate the operator's force input; any invalid input means one.
pub fn parse_force(s: &[u8]) -> (r: i32)
    ensures
        r == spec_parse_force(s@),
        0 <= r <= FORCE_LIMIT,
{
    match parse_i32(s) {
        Some(v) => {
            if 0 <= v && v <= FORCE_LIMIT {
                v
            } else {
                1
            }
        },
        None => 1,
    }
}

/// Relies on rand's `Rng::gen_range` over a half-open `u64` range: the
/// result always lies in `[lo, hi)`; nothing else can be said of a random
/// draw.
#[verifier::external_body]
fn gen_range_u64(lo: u64, hi: u64) -> (r: u64)
    requires
        lo < hi,
    ensures
        lo <= r < hi,
{
    let mut rng = rand::thread_rng();
    rand::Rng::gen_range(&mut rng, lo..hi)
}

/// Total of a weight table, in milli-weight.
pub open spec fn weights_total(s: Seq<u64>) -> int
    decreases s.len(),
{
    if s.len() == 0 {
        0
    } else {
        weights_total(s.drop_last()) + s.last() as int
    }
}

pub proof fn lemma_weights_total_nonneg(s: Seq<u64>)
    ensures
        weights_total(s) >= 0,
    decreases s.len(),
{
    if s.len() > 0 {
        lemma_weights_total_nonneg(s.drop_last());
    }
}

/// A prefix of a weight table weighs no more than the whole.
pub proof fn lemma_weights_prefix_le(s: Seq<u64>, i: int)
    requires
        0 <= i <= s.len(),
    ensures
        weights_total(s.take(i)) <= weights_total(s),
    decreases s.len() - i,
{
    if i == s.len() {
        assert(s.take(i) =~= s);
    } else {
        assert(s.take(i + 1).drop_last() =~= s.take(i));
        assert(s.take(i + 1).last() == s[i]);
        lemma_weights_prefix_le(s, i + 1);
    }
}

/// The slot of the weight table that `roll` falls into: the entry whose
/// cumulative weight range contains the roll.
fn pick_weighted(weights: &Vec<u64>, roll: u64) -> (i: usize)
    requires
        weights_total(weights@) <= u64::MAX,
        roll < weights_total(weights@),
    ensures
        i < weights@.len(),
        weights_total(weights@.take(i as int)) <= roll < weights_total(
            weights@.take(i as int + 1),
        ),
{
    let n = weights.len();
    let mut acc: u64 = 0;
    let mut i: usize = 0;
    proof {
        assert(weights@.take(0) =~= Seq::<u64>::empty());
    }
    while i < n
        invariant
            n == weights@.len(),
            i <= n,
            weights_total(weights@) <= u64::MAX,
            roll < weights_total(weights@),
            acc == weights_total(weights@.take(i as int)),
            acc <= roll,
        decreases n - i,
    {
        proof {
            assert(weights@.take(i as int + 1).drop_last() =~= weights@.take(i as int));
            assert(weights@.take(i as int + 1).last() == weights@[i as int]);
            lemma_weights_prefix_le(weights@, i as int + 1);
            lemma_weights_total_nonneg(weights@.take(i as int));
        }
        let w = weights[i];
        if roll < acc + w {
            return i;
        }
        acc = acc + w;
        i += 1;
    }
    proof {
        assert(weights@.take(n as int) =~= weights@);
    }
    // roll < total and acc == total contradict acc <= roll
    proof {
        assert(false);
    }
    0
}

/// The total weight of the side-effect table for the given wave multiplier
/// and force.
pub open spec fn spec_weights_sum(wave_multiplier_in: i32, force: i32) -> int {
    weights_total(crate::tower::spec_side_effect_weights(wave_multiplier_in, force))
}

/// The side effect one weighted roll grants: the roll falls either into the
/// fixed "nothing" band, the weak-shot band or the heal-shot band of the
/// weight table; the granted effect carries the chosen force. A zero force
/// makes both effect bands empty, so it never grants anything.
pub fn side_effect_for_roll(wave_multiplier_in: i32, force: i32, roll: u64) -> (r: Option<
    TowerSideEffects,
>)
    requires
        0 <= force <= FORCE_LIMIT,
        roll < spec_weights_sum(wave_multiplier_in, force),
    ensures
        ({
            let weights = crate::tower::spec_side_effect_weights(wave_multiplier_in, force);
            &&& (roll < weights[0] ==> r is None)
            &&& (weights[0] <= roll < weights[0] + weights[1] ==> r == Some(
                TowerSideEffects::WeakShot((force * 1000) as u64),
            ))
            &&& (weights[0] + weights[1] <= roll ==> r == Some(
                TowerSideEffects::HealShot((force * 1000) as u64),
            ))
        }),
        match r {
            Some(se) => force > 0 && (se == TowerSideEffects::WeakShot((force * 1000) as u64)
                || se == TowerSideEffects::HealShot((force * 1000) as u64)),
            None => true,
        },
{
    let weights = TowerSideEffects::get_weights(wave_multiplier_in, force);
    proof {
        assert(weights@.take(1) =~= seq![weights@[0]]);
        assert(weights@.take(1).drop_last() =~= Seq::<u64>::empty());
        assert(weights@.take(2).drop_last() =~= weights@.take(1));
        assert(weights@.take(3).drop_last() =~= weights@.take(2));
        assert(weights@.take(3) =~= weights@);
        assert(weights@.drop_last() =~= weights@.take(2));
    }
    let ghost w0 = weights@[0];
    let ghost w1 = weights@[1];
    let ghost w2 = weights@[2];
    proof {
        assert(weights_total(Seq::<u64>::empty()) == 0);
        assert(weights@.take(1).last() == w0);
        assert(weights_total(weights@.take(1)) == w0);
        assert(weights@.take(2).last() == w1);
        assert(weights_total(weights@.take(2)) == w0 + w1);
        assert(weights@.last() == w2);
        assert(weights_total(weights@) == w0 + w1 + w2);
    }
    let idx = pick_weighted(&weights, roll);
    let payload = (force as u64) * 1000;
    proof {
        if force == 0 {
            let wv: int = if wave_multiplier_in <= 0 {
                1
            } else {
                wave_multiplier_in as int
            };
            assert(wv * (force as int) == 0) by (nonlinear_arith)
                requires
                    force == 0,
            ;
            assert(w1 == (500 * (wv * (force as int))) as u64);
            assert(w2 == (200 * (wv * (force as int))) as u64);
            assert(w1 == 0 && w2 == 0);
        }
    }
    if idx == 0 {
        None
    } else if idx == 1 {
        proof {
            if force == 0 {
                assert(false);
            }
        }
        Some(TowerSideEffects::WeakShot(payload))
    } else {
        proof {
            if force == 0 {
                assert(idx == 2);
                assert(false);
            }
        }
        Some(TowerSideEffects::HealShot(payload))
    }
}

/// Roll the side effect granted with an upgrade: a weighted random draw
/// among {nothing, a weak shot, a heal shot}, with wave- and force-scaled
/// weights. Whatever the draw, the result is one of those three, the effect
/// magnitudes carry the chosen force, and a zero force never grants an
/// effect.
pub fn get_side_effect(wave_multiplier_in: i32, force: i32) -> (r: Option<TowerSideEffects>)
    requires
        0 <= force <= FORCE_LIMIT,
    ensures
        match r {
            Some(se) => force > 0 && (se == TowerSideEffects::WeakShot((force * 1000) as u64)
                || se == TowerSideEffects::HealShot((force * 1000) as u64)),
            None => true,
        },
{
    let weights = TowerSideEffects::get_weights(wave_multiplier_in, force);
    proof {
        assert(weights@.take(2).drop_last() =~= weights@.take(1));
        assert(weights@.take(1).drop_last() =~= Seq::<u64>::empty());
        assert(weights@.take(1).last() == weights@[0]);
        assert(weights@.take(2).last() == weights@[1]);
        assert(weights@.drop_last() =~= weights@.take(2));
        assert(weights@.last() == weights@[2]);
        assert(weights_total(Seq::<u64>::empty()) == 0);
        assert(weights_total(weights@.take(1)) == weights@[0]);
        assert(weights_total(weights@.take(2)) == weights@[0] + weights@[1]);
        assert(weights_total(weights@) == weights@[0] + weights@[1] + weights@[2]);
    }
    let total = weights[0] + weights[1] + weights[2];
    let roll = gen_range_u64(0, total);
    side_effect_for_roll(wave_multiplier_in, force, roll)
}

/// Buy and place a tower of the given type: when the session is running and
/// the money covers the price, the price is debited and the freshly built
/// tower returned, in one step; otherwise nothing changes and nothing is
/// built.
pub fn try_build(ws: &mut WaveState, tower_type: TowerType) -> (r: Option<Tower>)
    requires
        old(ws).wf(),
    ensures
        final(ws).wf(),
        r is Some <==> (!terminal_state(old(ws).game_state) && old(ws).money
            >= tower_type.spec_price(spec_wave_multiplier(old(ws).waves_finished))),
        r is None ==> *final(ws) == *old(ws),
        match r {
            Some(t) => *final(ws) == (WaveState {
                money: (old(ws).money - tower_type.spec_price(
                    spec_wave_multiplier(old(ws).waves_finished),
                )) as i64,
                ..*old(ws)
            }) && t.wf() && t.shooting_timer == (crate::timer::GameTimer {
                duration: tower_type.spec_cooldown_ms(),
                elapsed: 0,
                mode: crate::timer::TimerMode::Repeating,
                paused: false,
            }) && t.upgrades@.len() == 0 && t.side_effects@.len() == 0,
            None => true,
        },
{
    if matches!(ws.game_state, GameState::GameWon | GameState::GameLost) {
        return None;
    }
    let price = tower_type.get_price(wave_multiplier(ws.waves_finished));
    if ws.money < price {
        return None;
    }
    ws.money = ws.money - price;
    Some(Tower::new(tower_type))
}

/// Buy one upgrade for a tower with an already-rolled side effect: when the
/// session is running and the money covers the price, the price is debited
/// and the upgrade (carrying the chosen force) applied to the tower, in one
/// step; otherwise neither the session nor the tower changes in any way.
pub fn try_upgrade(
    ws: &mut WaveState,
    tower: &mut Tower,
    upgrade: TowerUpgrades,
    force: i32,
    side_effect: Option<TowerSideEffects>,
) -> (r: bool)
    requires
        old(ws).wf(),
        old(tower).wf(),
        0 <= force <= FORCE_LIMIT,
    ensures
        final(ws).wf(),
        final(tower).wf(),
        r <==> (!terminal_state(old(ws).game_state) && old(ws).money >= upgrade.spec_price(
            spec_wave_multiplier(old(ws).waves_finished),
            force,
        )),
        !r ==> *final(ws) == *old(ws) && *final(tower) == *old(tower),
        r ==> *final(ws) == (WaveState {
            money: (old(ws).money - upgrade.spec_price(
                spec_wave_multiplier(old(ws).waves_finished),
                force,
            )) as i64,
            ..*old(ws)
        }),
        r ==> final(tower).bullet_offset == old(tower).bullet_offset && (match upgrade.spec_set_force(
            (force * 1000) as u64,
        ) {
            TowerUpgrades::ShootingSpeedBuff(v) => final(tower).shooting_timer == old(tower).shooting_timer.spec_shorten((v / 10) as u64) && final(tower).upgrades@ == old(tower).upgrades@,
            eff => final(tower).shooting_timer == old(tower).shooting_timer && final(tower).upgrades@ == old(tower).upgrades@.push(eff),
        }) && (match side_effect {
            Some(se) => final(tower).side_effects@ == old(tower).side_effects@.push(se),
            None => final(tower).side_effects@ == old(tower).side_effects@,
        }),
{
    if matches!(ws.game_state, GameState::GameWon | GameState::GameLost) {
        return false;
    }
    let price = upgrade.get_price(wave_multiplier(ws.waves_finished), force);
    if ws.money < price {
        return false;
    }
    ws.money = ws.money - price;
    let effect = upgrade.set_force((force as u64) * 1000);
    tower.apply_upgrade(effect, side_effect);
    true
}

/// Buy one upgrade, rolling the side effect as part of the purchase: a
/// rejected purchase rolls nothing and changes nothing; an accepted one
/// debits the price, applies the upgrade, and attaches whatever the roll
/// granted (nothing, a weak shot or a heal shot at the chosen force).
pub fn purchase_upgrade(
    ws: &mut WaveState,
    tower: &mut Tower,
    upgrade: TowerUpgrades,
    force: i32,
) -> (r: bool)
    requires
        old(ws).wf(),
        old(tower).wf(),
        0 <= force <= FORCE_LIMIT,
    ensures
        final(ws).wf(),
        final(tower).wf(),
        r <==> (!terminal_state(old(ws).game_state) && old(ws).money >= upgrade.spec_price(
            spec_wave_multiplier(old(ws).waves_finished),
            force,
        )),
        !r ==> *final(ws) == *old(ws) && *final(tower) == *old(tower),
        r ==> *final(ws) == (WaveState {
            money: (old(ws).money - upgrade.spec_price(
                spec_wave_multiplier(old(ws).waves_finished),
                force,
            )) as i64,
            ..*old(ws)
        }),
        r ==> final(tower).bullet_offset == old(tower).bullet_offset && (match upgrade.spec_set_force(
            (force * 1000) as u64,
        ) {
            TowerUpgrades::ShootingSpeedBuff(v) => final(tower).shooting_timer == old(tower).shooting_timer.spec_shorten((v / 10) as u64) && final(tower).upgrades@ == old(tower).upgrades@,
            eff => final(tower).shooting_timer == old(tower).shooting_timer && final(tower).upgrades@ == old(tower).upgrades@.push(eff),
        }) && (final(tower).side_effects@ == old(tower).side_effects@ || final(tower).side_effects@ == old(tower).side_effects@.push(
            TowerSideEffects::WeakShot((force * 1000) as u64),
        ) || final(tower).side_effects@ == old(tower).side_effects@.push(
            TowerSideEffects::HealShot((force * 1000) as u64),
        )),
{
    if matches!(ws.game_state, GameState::GameWon | GameState::GameLost) {
        return false;
    }
    let price = upgrade.get_price(wave_multiplier(ws.waves_finished), force);
    if ws.money < price {
        return false;
    }
    let side_effect = get_side_effect(wave_multiplier(ws.waves_finished), force);
    try_upgrade(ws, tower, upgrade, force, side_effect)
}

} // verus!
