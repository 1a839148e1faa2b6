//! The per-tick simulation: the wave state machine ticks first, then the
//! spawner, then every enemy moves and resolves — the fixed order that keeps
//! the spawner from acting on a session already won or lost.
//!
//! Every enemy leaves the world through exactly one outcome event: the tick
//! removes an enemy if and only if it reports that enemy's outcome, reports
//! at most one outcome per enemy, and feeds each outcome into the
//! wave/economy state in order.

use vstd::prelude::*;
use crate::arena::{Arena, EntityId};
use crate::enemy::{enemy_tick, spec_enemy_after_tick, spec_enemy_outcome, Enemy, EnemyOutcome};
use crate::path::PathManager;
use crate::state::{terminal_state, StateUpdateEvent, WaveState};
use crate::tower::clamp_u64;

verus! {

/// A projectile-to-enemy contact translated into damage, as the physics
/// collaborator reports it.
#[derive(Clone, Copy, Debug, PartialEq, Eq, Structural)]
pub struct HitEvent {
    pub entity: EntityId,
    pub force: u64,
}

/// Total force aimed at one enemy among this tick's hits.
pub open spec fn sum_damage(hits: Seq<HitEvent>, id: EntityId) -> int
    decreases hits.len(),
{
    if hits.len() == 0 {
        0
    } else {
        sum_damage(hits.drop_last(), id) + if hits.last().entity == id {
            hits.last().force as int
        } else {
            0
        }
    }
}

/// Total force aimed at one enemy, clamped at the machine maximum.
pub fn damage_for(hits: &Vec<HitEvent>, id: EntityId) -> (d: u64)
    ensures
        d == clamp_u64(sum_damage(hits@, id)),
{
    let n = hits.len();
    let mut d: u64 = 0;
    let mut i: usize = 0;
    proof {
        assert(hits@.take(0) =~= Seq::<HitEvent>::empty());
    }
    while i < n
        invariant
            n == hits@.len(),
            i <= n,
            sum_damage(hits@.take(i as int), id) >= 0,
            d == clamp_u64(sum_damage(hits@.take(i as int), id)),
        decreases n - i,
    {
        proof {
            assert(hits@.take(i as int + 1).drop_last() =~= hits@.take(i as int));
            assert(hits@.take(i as int + 1).last() == hits@[i as int]);
        }
        let h = hits[i];
        if h.entity.index == id.index && h.entity.gen == id.gen {
            d = d.saturating_add(h.force);
        }
        i += 1;
    }
    proof {
        assert(hits@.take(n as int) =~= hits@);
    }
    d
}

/// The hit events a list of contact facts translates to: each contact whose
/// second entity is a live projectile wounds the first entity with that
/// projectile's force; contacts with stale or foreign ids translate to
/// nothing.
pub open spec fn spec_hits(
    contacts: Seq<(EntityId, EntityId)>,
    projectiles: Arena<crate::projectile::Projectile>,
) -> Seq<HitEvent>
    decreases contacts.len(),
{
    if contacts.len() == 0 {
        Seq::empty()
    } else {
        let rest = spec_hits(contacts.drop_last(), projectiles);
        let c = contacts.last();
        if projectiles.valid(c.1) {
            rest.push(HitEvent { entity: c.0, force: projectiles.get(c.1).force })
        } else {
            rest
        }
    }
}

/// The projectiles spent by a list of contact facts: every live projectile
/// that touched something hit it and is to be removed.
pub open spec fn spec_spent(
    contacts: Seq<(EntityId, EntityId)>,
    projectiles: Arena<crate::projectile::Projectile>,
) -> Seq<EntityId>
    decreases contacts.len(),
{
    if contacts.len() == 0 {
        Seq::empty()
    } else {
        let rest = spec_spent(contacts.drop_last(), projectiles);
        let c = contacts.last();
        if projectiles.valid(c.1) {
            rest.push(c.1)
        } else {
            rest
        }
    }
}

/// Translate the physics collaborator's contact facts — pairs of a touched
/// entity and the projectile touching it — into hit events and the list of
/// projectiles spent by hitting.
pub fn hits_from_contacts(
    contacts: &Vec<(EntityId, EntityId)>,
    projectiles: &Arena<crate::projectile::Projectile>,
) -> (r: (Vec<HitEvent>, Vec<EntityId>))
    ensures
        r.0@ == spec_hits(contacts@, *projectiles),
        r.1@ == spec_spent(contacts@, *projectiles),
{
    let n = contacts.len();
    let mut hits: Vec<HitEvent> = Vec::new();
    let mut spent: Vec<EntityId> = Vec::new();
    let mut i: usize = 0;
    proof {
        assert(contacts@.take(0) =~= Seq::<(EntityId, EntityId)>::empty());
    }
    while i < n
        invariant
            n == contacts@.len(),
            i <= n,
            hits@ == spec_hits(contacts@.take(i as int), *projectiles),
            spent@ == spec_spent(contacts@.take(i as int), *projectiles),
        decreases n - i,
    {
        proof {
            assert(contacts@.take(i as int + 1).drop_last() =~= contacts@.take(i as int));
            assert(contacts@.take(i as int + 1).last() == contacts@[i as int]);
        }
        let (victim, projectile_id) = contacts[i];
        match projectiles.lookup(projectile_id) {
            Some(p) => {
                hits.push(HitEvent { entity: victim, force: p.force });
                spent.push(projectile_id);
            },
            None => {},
        }
        i += 1;
    }
    proof {
        assert(contacts@.take(n as int) =~= contacts@);
    }
    (hits, spent)
}

/// The state-machine event an enemy outcome raises.
pub open spec fn outcome_event(o: EnemyOutcome) -> StateUpdateEvent {
    match o {
        EnemyOutcome::Killed { reward } => StateUpdateEvent::EnemyKilled { reward },
        EnemyOutcome::ReachedPortal => StateUpdateEvent::EnemyReachedPortal,
    }
}

fn to_event(o: EnemyOutcome) -> (e: StateUpdateEvent)
    ensures
        e == outcome_event(o),
{
    match o {
        EnemyOutcome::Killed { reward } => StateUpdateEvent::EnemyKilled { reward },
        EnemyOutcome::ReachedPortal => StateUpdateEvent::EnemyReachedPortal,
    }
}

/// The wave state after a list of outcome events, applied in order.
pub open spec fn apply_outcomes(ws: WaveState, evs: Seq<(EntityId, EnemyOutcome)>) -> WaveState
    decreases evs.len(),
{
    if evs.len() == 0 {
        ws
    } else {
        apply_outcomes(ws, evs.drop_last()).spec_apply_event(outcome_event(evs.last().1))
    }
}

/// One level's running simulation: the route, the wave/economy state, and
/// the live enemies.
#[derive(Debug)]
pub struct Simulation {
    pub path: PathManager,
    pub wave: WaveState,
    pub enemies: Arena<Enemy>,
}

impl Simulation {
    /// Well-formedness: a playable route exists and the wave state is
    /// well-formed.
    pub open spec fn wf(self) -> bool {
        &&& self.path.wf()
        &&& self.path.waypoints@.len() > 0
        &&& self.wave.wf()
    }

    /// A fresh session on the given route.
    pub fn new(path: PathManager) -> (s: Simulation)
        requires
            path.wf(),
            path.waypoints@.len() > 0,
        ensures
            s.wf(),
            s.path == path,
            s.wave == WaveState::spec_init(),
            forall|o: EntityId| !s.enemies.valid(o),
    {
        Simulation { path, wave: WaveState::new(), enemies: Arena::new() }
    }

    /// Move and resolve every live enemy once: damage first (a kill pays the
    /// fixed reward), then movement, then the portal check. An enemy is
    /// removed exactly when an outcome is reported for it, each enemy gets
    /// at most one outcome, survivors only ever advance along the path, and
    /// the wave state absorbs the outcome events in order.
    pub fn tick_enemies(&mut self, dt: u64, hits: &Vec<HitEvent>) -> (events: Vec<
        (EntityId, EnemyOutcome),
    >)
        requires
            old(self).wf(),
        ensures
            final(self).wf(),
            final(self).path == old(self).path,
            final(self).wave == apply_outcomes(old(self).wave, events@),
            forall|k: int|
                0 <= k < events@.len() ==> old(self).enemies.valid((#[trigger] events@[k]).0)
                    && !final(self).enemies.valid(events@[k].0) && Some(events@[k].1)
                    == spec_enemy_outcome(
                    old(self).enemies.get(events@[k].0),
                    crate::tower::clamp_u64(sum_damage(hits@, events@[k].0)),
                    dt,
                    old(self).path.waypoints@,
                    old(self).path.despawn_distance,
                ),
            forall|k1: int, k2: int|
                0 <= k1 < k2 < events@.len() ==> (#[trigger] events@[k1]).0 != (
                #[trigger] events@[k2]).0,
            forall|id: EntityId|
                #[trigger] final(self).enemies.valid(id) ==> old(self).enemies.valid(id),
            forall|id: EntityId|
                old(self).enemies.valid(id) ==> (#[trigger] final(self).enemies.valid(id)
                    <==> spec_enemy_outcome(
                    old(self).enemies.get(id),
                    crate::tower::clamp_u64(sum_damage(hits@, id)),
                    dt,
                    old(self).path.waypoints@,
                    old(self).path.despawn_distance,
                ) is None),
            forall|id: EntityId|
                old(self).enemies.valid(id) && #[trigger] final(self).enemies.valid(id) ==> final(self).enemies.get(id) == spec_enemy_after_tick(
                    old(self).enemies.get(id),
                    crate::tower::clamp_u64(sum_damage(hits@, id)),
                    dt,
                ) && final(self).enemies.get(id).progress >= old(self).enemies.get(id).progress,
            forall|id: EntityId|
                old(self).enemies.valid(id) && !(#[trigger] final(self).enemies.valid(id))
                    ==> exists|k: int| 0 <= k < events@.len() && (#[trigger] events@[k]).0 == id,
    {
        let n = self.enemies.slot_count();
        let mut events: Vec<(EntityId, EnemyOutcome)> = Vec::new();
        let mut index: usize = 0;
        while index < n
            invariant
                old(self).wf(),
                self.path == old(self).path,
                self.wave.wf(),
                n == self.enemies.slots@.len(),
                n == old(self).enemies.slots@.len(),
                index <= n,
                self.wave == apply_outcomes(old(self).wave, events@),
                forall|k: int|
                    0 <= k < events@.len() ==> old(self).enemies.valid((#[trigger] events@[k]).0)
                        && !self.enemies.valid(events@[k].0) && events@[k].0.index < index && Some(
                        events@[k].1,
                    ) == spec_enemy_outcome(
                        old(self).enemies.get(events@[k].0),
                        crate::tower::clamp_u64(sum_damage(hits@, events@[k].0)),
                        dt,
                        old(self).path.waypoints@,
                        old(self).path.despawn_distance,
                    ),
                forall|k1: int, k2: int|
                    0 <= k1 < k2 < events@.len() ==> (#[trigger] events@[k1]).0 != (
                    #[trigger] events@[k2]).0,
                forall|id: EntityId|
                    #[trigger] self.enemies.valid(id) ==> old(self).enemies.valid(id),
                forall|id: EntityId|
                    old(self).enemies.valid(id) && id.index >= index ==> #[trigger] self.enemies.valid(
                        id,
                    ) && self.enemies.get(id) == old(self).enemies.get(id),
                forall|id: EntityId|
                    old(self).enemies.valid(id) && id.index < index ==> (
                    #[trigger] self.enemies.valid(id) <==> spec_enemy_outcome(
                        old(self).enemies.get(id),
                        crate::tower::clamp_u64(sum_damage(hits@, id)),
                        dt,
                        old(self).path.waypoints@,
                        old(self).path.despawn_distance,
                    ) is None),
                forall|id: EntityId|
                    old(self).enemies.valid(id) && id.index < index && #[trigger] self.enemies.valid(
                        id,
                    ) ==> self.enemies.get(id) == spec_enemy_after_tick(
                        old(self).enemies.get(id),
                        crate::tower::clamp_u64(sum_damage(hits@, id)),
                        dt,
                    ),
                forall|id: EntityId|
                    old(self).enemies.valid(id) && #[trigger] self.enemies.valid(id)
                        ==> self.enemies.get(id).progress >= old(self).enemies.get(id).progress,
                forall|id: EntityId|
                    old(self).enemies.valid(id) && !(#[trigger] self.enemies.valid(id)) ==> exists|
                        k: int,
                    | 0 <= k < events@.len() && (#[trigger] events@[k]).0 == id,
            decreases n - index,
        {
            match self.enemies.get_at(index) {
                None => {
                    proof {
                        assert forall|id: EntityId|
                            old(self).enemies.valid(id) && id.index >= index
                                + 1 implies #[trigger] self.enemies.valid(id) && self.enemies.get(
                            id,
                        ) == old(self).enemies.get(id) by {
                            assert(id.index >= index);
                        }
                    }
                },
                Some((id, enemy)) => {
                    let ghost pre = self.enemies;
                    let damage = damage_for(hits, id);
                    let mut e = enemy;
                    let (outcome, _pos) = enemy_tick(&mut e, damage, dt, &self.path);
                    match outcome {
                        Some(out) => {
                            let ghost evs_before = events@;
                            self.enemies.despawn(id);
                            self.wave.apply_event(&to_event(out));
                            events.push((id, out));
                            proof {
                                assert(events@.drop_last() =~= evs_before);
                                assert(events@.last() == (id, out));
                                assert forall|id2: EntityId|
                                    old(self).enemies.valid(id2) && id2.index >= index
                                        + 1 implies #[trigger] self.enemies.valid(id2)
                                    && self.enemies.get(id2) == old(self).enemies.get(id2) by {
                                    assert(pre.valid(id2) && pre.get(id2) == old(self).enemies.get(id2));
                                    assert(id2 != id);
                                }
                            }
                        },
                        None => {
                            self.enemies.set(id, e);
                            proof {
                                assert forall|id2: EntityId|
                                    old(self).enemies.valid(id2) && id2.index >= index
                                        + 1 implies #[trigger] self.enemies.valid(id2)
                                    && self.enemies.get(id2) == old(self).enemies.get(id2) by {
                                    assert(pre.valid(id2) && pre.get(id2) == old(self).enemies.get(id2));
                                    assert(id2 != id);
                                }
                            }
                        },
                    }
                },
            }
            index += 1;
        }
        events
    }

    /// One full simulation tick, in the documented order: the wave timer
    /// ticks (its expiry ends the wave), then the spawner — which acts only
    /// while a wave runs, so nothing ever spawns once the session is over —
    /// then every enemy moves and resolves. The spawned enemy (if any) is
    /// fresh; every removal is matched by exactly one outcome event; the
    /// wave state threads through the wave tick, the spawn tick and the
    /// outcome events.
    pub fn tick(&mut self, dt: u64, hits: &Vec<HitEvent>) -> (r: (
        Option<EntityId>,
        Vec<(EntityId, EnemyOutcome)>,
    ))
        requires
            old(self).wf(),
        ensures
            final(self).wf(),
            final(self).path == old(self).path,
            ({
                let w1 = old(self).wave.spec_tick_wave(dt);
                &&& (r.0 is Some <==> (w1.game_state is RunningWave && w1.spawn_timer.spec_fires(
                    dt,
                )))
                &&& final(self).wave == apply_outcomes(w1.spec_tick_spawn(dt), r.1@)
                &&& terminal_state(w1.game_state) ==> r.0 is None
            }),
            match r.0 {
                Some(id) => !old(self).enemies.valid(id),
                None => true,
            },
            forall|k: int|
                0 <= k < r.1@.len() ==> (old(self).enemies.valid((#[trigger] r.1@[k]).0) || r.0
                    == Some(r.1@[k].0)) && !final(self).enemies.valid(r.1@[k].0),
            forall|k1: int, k2: int|
                0 <= k1 < k2 < r.1@.len() ==> (#[trigger] r.1@[k1]).0 != (#[trigger] r.1@[k2]).0,
            forall|id: EntityId|
                #[trigger] final(self).enemies.valid(id) ==> old(self).enemies.valid(id) || r.0
                    == Some(id),
            forall|id: EntityId|
                old(self).enemies.valid(id) && !(#[trigger] final(self).enemies.valid(id))
                    ==> exists|k: int| 0 <= k < r.1@.len() && (#[trigger] r.1@[k]).0 == id,
            forall|id: EntityId|
                old(self).enemies.valid(id) ==> (#[trigger] final(self).enemies.valid(id)
                    <==> spec_enemy_outcome(
                    old(self).enemies.get(id),
                    crate::tower::clamp_u64(sum_damage(hits@, id)),
                    dt,
                    old(self).path.waypoints@,
                    old(self).path.despawn_distance,
                ) is None),
            forall|id: EntityId|
                old(self).enemies.valid(id) && #[trigger] final(self).enemies.valid(id) ==> final(self).enemies.get(id) == spec_enemy_after_tick(
                    old(self).enemies.get(id),
                    crate::tower::clamp_u64(sum_damage(hits@, id)),
                    dt,
                ),
    {
        self.wave.tick_wave(dt);
        let spawn = self.wave.tick_spawn(dt);
        let spawned: Option<EntityId> = if spawn {
            Some(self.enemies.spawn(Enemy::new()))
        } else {
            None
        };
        let ghost mid = self.enemies;
        let events = self.tick_enemies(dt, hits);
        proof {
            assert forall|id: EntityId| old(self).enemies.valid(id) implies mid.valid(id)
                && mid.get(id) == old(self).enemies.get(id) by {
                if spawned is Some {
                } else {
                    assert(mid == old(self).enemies);
                }
            }
        }
        (spawned, events)
    }
}

} // verus!
