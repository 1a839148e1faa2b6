//! The waypoint path enemies follow: an ordered sequence of route nodes,
//! kept sorted ascending by node id, with arc-length interpolation.
//!
//! "Progress" is a non-negative arc-length distance along the sequence.
//! `get_position` walks the waypoints, consuming one segment length at a
//! time; inside the first segment longer than the remaining progress it
//! interpolates linearly, and past the total length it returns the final
//! waypoint unchanged.

use vstd::prelude::*;
use crate::GameError;
use crate::geometry::{dist, lerp, Vec3Milli, distance, lerp_toward};

verus! {

/// How close (in milli-units) to the final waypoint an enemy must get to
/// count as having reached the portal.
pub const DEFAULT_DESPAWN_DISTANCE: u64 = 200;

#[derive(Clone, Copy, Debug, PartialEq, Eq, Structural)]
pub enum ProxyKind {
    Route,
    Portal,
}

impl ProxyKind {
    /// The kind's name, as it appears inside scene-node names.
    pub fn label(&self) -> (r: &'static str)
        ensures
            r@ == match self {
                ProxyKind::Route => "route"@,
                ProxyKind::Portal => "portal"@,
            },
    {
        match self {
            ProxyKind::Route => "route",
            ProxyKind::Portal => "portal",
        }
    }
}

#[derive(Clone, Copy, Debug, PartialEq, Eq, Structural)]
pub enum MovementType {
    Walking,
    Falling,
}

/// A named scene node standing in for a gameplay element: a route waypoint
/// or the portal, with its place in the route and its world location.
#[derive(Clone, Copy, Debug, PartialEq, Eq, Structural)]
pub struct Proxy {
    pub route_id: i32,
    pub node_id: i32,
    pub kind: ProxyKind,
    pub movement_type: MovementType,
    pub location: Vec3Milli,
}

/// The position reached by walking `wps` from `tail` with `p` milli-units
/// of progress left: each segment shorter than the remaining progress is
/// consumed whole; the first longer one is entered by linear interpolation;
/// an exhausted list pins the position to the last point reached.
pub open spec fn pos_from(tail: Vec3Milli, wps: Seq<Proxy>, p: int) -> Vec3Milli
    decreases wps.len(),
{
    if wps.len() == 0 {
        tail
    } else {
        let d = dist(tail, wps[0].location);
        if d > p {
            lerp(tail, wps[0].location, p, d)
        } else {
            pos_from(wps[0].location, wps.drop_first(), p - d)
        }
    }
}

/// The position at arc-length `p` along the whole path.
pub open spec fn position_at_spec(wps: Seq<Proxy>, p: int) -> Vec3Milli
    recommends
        wps.len() > 0,
{
    pos_from(wps[0].location, wps, p)
}

/// The arc length of the walk from `tail` through all of `wps`.
pub open spec fn len_from(tail: Vec3Milli, wps: Seq<Proxy>) -> int
    decreases wps.len(),
{
    if wps.len() == 0 {
        0
    } else {
        dist(tail, wps[0].location) + len_from(wps[0].location, wps.drop_first())
    }
}

/// The total arc length of the path.
pub open spec fn total_len(wps: Seq<Proxy>) -> int
    recommends
        wps.len() > 0,
{
    len_from(wps[0].location, wps)
}

/// The arc length consumed by walking from the first waypoint up to and
/// including waypoint `k`.
pub open spec fn partial_len(wps: Seq<Proxy>, k: int) -> int
    recommends
        0 <= k < wps.len(),
{
    len_from(wps[0].location, wps.take(k + 1))
}

pub proof fn lemma_len_from_nonneg(tail: Vec3Milli, wps: Seq<Proxy>)
    ensures
        len_from(tail, wps) >= 0,
    decreases wps.len(),
{
    if wps.len() > 0 {
        lemma_len_from_nonneg(wps[0].location, wps.drop_first());
    }
}

/// Walking at least the whole arc length lands exactly on the last
/// waypoint, whatever the excess: the position is clamped, never
/// extrapolated.
pub proof fn lemma_pos_from_past_end(tail: Vec3Milli, wps: Seq<Proxy>, p: int)
    requires
        p >= len_from(tail, wps),
    ensures
        pos_from(tail, wps, p) == if wps.len() == 0 {
            tail
        } else {
            wps.last().location
        },
    decreases wps.len(),
{
    if wps.len() > 0 {
        let d = dist(tail, wps[0].location);
        lemma_len_from_nonneg(wps[0].location, wps.drop_first());
        lemma_pos_from_past_end(wps[0].location, wps.drop_first(), p - d);
        if wps.len() > 1 {
            assert(wps.drop_first().last() == wps.last());
        }
    }
}

/// Progress at or past the total path length always yields the final
/// waypoint exactly.
pub proof fn lemma_position_clamps_past_end(wps: Seq<Proxy>, p: int)
    requires
        wps.len() > 0,
        p >= total_len(wps),
    ensures
        position_at_spec(wps, p) == wps.last().location,
{
    lemma_pos_from_past_end(wps[0].location, wps, p);
}

/// Two points at distance zero coincide: the squared distance is then zero,
/// so each coordinate difference is zero.
pub proof fn lemma_dist_zero_means_equal(a: Vec3Milli, b: Vec3Milli)
    requires
        dist(a, b) == 0,
    ensures
        a == b,
{
    crate::geometry::lemma_sqrt_floor_is_sqrt(crate::geometry::dist_sq(a, b) as nat);
    assert((a.x - b.x) * (a.x - b.x) >= 0) by (nonlinear_arith);
    assert((a.y - b.y) * (a.y - b.y) >= 0) by (nonlinear_arith);
    assert((a.z - b.z) * (a.z - b.z) >= 0) by (nonlinear_arith);
    let r = crate::geometry::sqrt_floor(crate::geometry::dist_sq(a, b) as nat);
    assert(r == 0);
    assert((r as int + 1) * (r as int + 1) == 1) by (nonlinear_arith)
        requires
            r == 0,
    ;
    assert((crate::geometry::dist_sq(a, b) as nat) < 1);
    assert(a.x == b.x && a.y == b.y && a.z == b.z) by (nonlinear_arith)
        requires
            (a.x - b.x) * (a.x - b.x) + (a.y - b.y) * (a.y - b.y) + (a.z - b.z) * (a.z - b.z)
                < 1,
    ;
}

/// Walking zero progress stays at the starting point.
pub proof fn lemma_pos_from_at_zero(tail: Vec3Milli, wps: Seq<Proxy>)
    ensures
        pos_from(tail, wps, 0) == tail,
    decreases wps.len(),
{
    if wps.len() > 0 {
        let d = dist(tail, wps[0].location);
        if d > 0 {
            assert(lerp(tail, wps[0].location, 0, d) == tail) by {
                vstd::arithmetic::div_mod::lemma_div_of0(d);
                assert((wps[0].location.x - tail.x) * 0 == 0);
                assert((tail.x - wps[0].location.x) * 0 == 0);
                assert((wps[0].location.y - tail.y) * 0 == 0);
                assert((tail.y - wps[0].location.y) * 0 == 0);
                assert((wps[0].location.z - tail.z) * 0 == 0);
                assert((tail.z - wps[0].location.z) * 0 == 0);
            }
        } else {
            lemma_dist_zero_means_equal(tail, wps[0].location);
            lemma_pos_from_at_zero(wps[0].location, wps.drop_first());
        }
    }
}

/// The interpolation pieces agree where segments meet: walking exactly the
/// accumulated arc length to waypoint `k` lands on waypoint `k` itself, so
/// the path position has no jump at any segment boundary.
pub proof fn lemma_pos_from_hits_waypoint(tail: Vec3Milli, wps: Seq<Proxy>, k: int)
    requires
        0 <= k < wps.len(),
    ensures
        pos_from(tail, wps, len_from(tail, wps.take(k + 1))) == wps[k].location,
    decreases k,
{
    let d = dist(tail, wps[0].location);
    assert(wps.take(k + 1)[0] == wps[0]);
    assert(wps.take(k + 1).drop_first() =~= wps.drop_first().take(k));
    if k == 0 {
        assert(len_from(tail, wps.take(1)) == d) by {
            assert(wps.take(1)[0] == wps[0]);
            assert(wps.take(1).drop_first() =~= Seq::<Proxy>::empty());
            assert(len_from(wps[0].location, Seq::<Proxy>::empty()) == 0);
        }
        lemma_pos_from_at_zero(wps[0].location, wps.drop_first());
    } else {
        lemma_len_from_nonneg(wps[0].location, wps.drop_first().take(k));
        lemma_pos_from_hits_waypoint(wps[0].location, wps.drop_first(), k - 1);
        assert(wps.drop_first()[k - 1] == wps[k]);
    }
}

/// Walking exactly the accumulated arc length to waypoint `k` lands on
/// waypoint `k`: the path position is continuous across segment boundaries.
pub proof fn lemma_position_continuous_at_waypoints(wps: Seq<Proxy>, k: int)
    requires
        0 <= k < wps.len(),
    ensures
        position_at_spec(wps, partial_len(wps, k)) == wps[k].location,
{
    lemma_pos_from_hits_waypoint(wps[0].location, wps, k);
}

/// The ordered waypoint list of one level's route, with the distance within
/// which an enemy counts as having reached the portal.
#[derive(Debug)]
pub struct PathManager {
    pub waypoints: Vec<Proxy>,
    pub despawn_distance: u64,
}

impl PathManager {
    /// Well-formedness: every waypoint lies in the world volume and the
    /// list is sorted ascending by node id (traversal order).
    pub open spec fn wf(self) -> bool {
        &&& forall|i: int|
            0 <= i < self.waypoints@.len() ==> (#[trigger] self.waypoints@[i]).location.in_bounds()
        &&& forall|i: int, j: int|
            0 <= i < j < self.waypoints@.len() ==> #[trigger] self.waypoints@[i].node_id
                <= #[trigger] self.waypoints@[j].node_id
    }

    pub fn new() -> (r: PathManager)
        ensures
            r.wf(),
            r.waypoints@.len() == 0,
            r.despawn_distance == DEFAULT_DESPAWN_DISTANCE,
    {
        PathManager { waypoints: Vec::new(), despawn_distance: DEFAULT_DESPAWN_DISTANCE }
    }

    /// Insert a waypoint at its place in the node-id order; waypoints with
    /// equal ids keep their insertion order.
    pub fn push(&mut self, proxy: Proxy)
        requires
            old(self).wf(),
            proxy.location.in_bounds(),
        ensures
            final(self).wf(),
            final(self).despawn_distance == old(self).despawn_distance,
            final(self).waypoints@.len() == old(self).waypoints@.len() + 1,
            exists|k: int|
                0 <= k <= old(self).waypoints@.len() && final(self).waypoints@ == old(
                    self,
                ).waypoints@.insert(k, proxy),
    {
        let n = self.waypoints.len();
        let mut idx: usize = 0;
        while idx < n && self.waypoints[idx].node_id <= proxy.node_id
            invariant
                idx <= n,
                n == self.waypoints@.len(),
                self.wf(),
                forall|j: int| 0 <= j < idx ==> #[trigger] self.waypoints@[j].node_id
                    <= proxy.node_id,
            decreases n - idx,
        {
            idx += 1;
        }
        self.waypoints.insert(idx, proxy);
        proof {
            let ws = self.waypoints@;
            let olds = old(self).waypoints@;
            assert(ws == olds.insert(idx as int, proxy));
            assert forall|i: int| 0 <= i < ws.len() implies (#[trigger] ws[i]).location.in_bounds() by {
                if i < idx {
                    assert(ws[i] == olds[i]);
                } else if i == idx {
                } else {
                    assert(ws[i] == olds[i - 1]);
                }
            }
            assert forall|i: int, j: int| 0 <= i < j < ws.len() implies #[trigger] ws[i].node_id
                <= #[trigger] ws[j].node_id by {
                if i < idx && j < idx {
                    assert(ws[i] == olds[i] && ws[j] == olds[j]);
                } else if i < idx && j == idx {
                    assert(ws[i] == olds[i]);
                } else if i < idx && j > idx {
                    assert(ws[i] == olds[i] && ws[j] == olds[j - 1]);
                    if idx < olds.len() {
                        assert(olds[idx as int].node_id > proxy.node_id);
                        assert(olds[i].node_id <= proxy.node_id);
                    }
                } else if i == idx {
                    assert(ws[j] == olds[j - 1]);
                    assert(olds[idx as int].node_id > proxy.node_id);
                } else {
                    assert(ws[i] == olds[i - 1] && ws[j] == olds[j - 1]);
                }
            }
        }
    }

    /// The first waypoint of the route, where enemies spawn.
    pub fn get_start(&self) -> (r: Option<Proxy>)
        ensures
            match r {
                Some(p) => self.waypoints@.len() > 0 && p == self.waypoints@[0],
                None => self.waypoints@.len() == 0,
            },
    {
        if self.waypoints.len() == 0 {
            None
        } else {
            Some(self.waypoints[0])
        }
    }

    /// The last waypoint of the route, the portal enemies march toward.
    pub fn get_end(&self) -> (r: Option<Proxy>)
        ensures
            match r {
                Some(p) => self.waypoints@.len() > 0 && p == self.waypoints@.last(),
                None => self.waypoints@.len() == 0,
            },
    {
        if self.waypoints.len() == 0 {
            None
        } else {
            Some(self.waypoints[self.waypoints.len() - 1])
        }
    }

    /// The world position at arc-length `progress` along the path.
    pub fn get_position(&self, progress: u64) -> (r: Vec3Milli)
        requires
            self.wf(),
            self.waypoints@.len() > 0,
        ensures
            r == position_at_spec(self.waypoints@, progress as int),
            r.in_bounds(),
    {
        let ghost wps = self.waypoints@;
        let n = self.waypoints.len();
        let mut tail: Vec3Milli = self.waypoints[0].location;
        let mut p: u64 = progress;
        let mut i: usize = 0;
        proof {
            assert(wps.skip(0) =~= wps);
        }
        while i < n
            invariant
                self.wf(),
                wps == self.waypoints@,
                n == wps.len(),
                0 < n,
                i <= n,
                tail.in_bounds(),
                position_at_spec(wps, progress as int) == pos_from(tail, wps.skip(i as int), p as int),
            decreases n - i,
        {
            let wp_loc = self.waypoints[i].location;
            proof {
                assert(wps.skip(i as int)[0] == wps[i as int]);
            }
            let d = distance(&tail, &wp_loc);
            if d > p {
                let r = lerp_toward(&tail, &wp_loc, p, d);
                return r;
            }
            p = p - d;
            tail = wp_loc;
            proof {
                assert(wps.skip(i as int).drop_first() =~= wps.skip(i as int + 1));
            }
            i += 1;
        }
        tail
    }

    /// Total version of `get_position`: an empty path is a map-authoring
    /// bug and surfaces as `InvalidState` instead of a position.
    pub fn try_position_at(&self, progress: u64) -> (r: Result<Vec3Milli, GameError>)
        requires
            self.wf(),
        ensures
            self.waypoints@.len() == 0 ==> r == Result::<Vec3Milli, GameError>::Err(
                GameError::InvalidState,
            ),
            self.waypoints@.len() > 0 ==> r == Result::<Vec3Milli, GameError>::Ok(
                position_at_spec(self.waypoints@, progress as int),
            ),
    {
        if self.waypoints.len() == 0 {
            Err(GameError::InvalidState)
        } else {
            Ok(self.get_position(progress))
        }
    }
}

/// A change to the route: a node discovered at map load, or one withdrawn.
#[derive(Debug)]
pub enum PathManagerUpdate {
    AddNode(Proxy),
    RemoveNode(Proxy),
}

impl PathManager {
    /// Apply one route change: adding inserts the node in traversal order,
    /// removing drops every waypoint carrying that node id.
    pub fn apply_update(&mut self, update: &PathManagerUpdate)
        requires
            old(self).wf(),
            match *update {
                PathManagerUpdate::AddNode(p) => p.location.in_bounds(),
                PathManagerUpdate::RemoveNode(_) => true,
            },
        ensures
            final(self).wf(),
            final(self).despawn_distance == old(self).despawn_distance,
            match *update {
                PathManagerUpdate::AddNode(p) => final(self).waypoints@.len() == old(
                    self,
                ).waypoints@.len() + 1 && exists|k: int|
                    0 <= k <= old(self).waypoints@.len() && final(self).waypoints@ == old(
                        self,
                    ).waypoints@.insert(k, p),
                PathManagerUpdate::RemoveNode(p) => final(self).waypoints@ == old(
                    self,
                ).waypoints@.filter(keeps_node(p.node_id)),
            },
    {
        match update {
            PathManagerUpdate::AddNode(p) => {
                self.push(*p);
            },
            PathManagerUpdate::RemoveNode(p) => {
                self.remove_node(p.node_id);
            },
        }
    }

    /// Drop every waypoint with the given node id, keeping the rest in
    /// order.
    pub fn remove_node(&mut self, node_id: i32)
        requires
            old(self).wf(),
        ensures
            final(self).wf(),
            final(self).despawn_distance == old(self).despawn_distance,
            final(self).waypoints@ == old(self).waypoints@.filter(keeps_node(node_id)),
    {
        let ghost olds = self.waypoints@;
        let ghost pred = keeps_node(node_id);
        let n = self.waypoints.len();
        let mut kept: Vec<Proxy> = Vec::new();
        let mut i: usize = 0;
        proof {
            assert(olds.take(0) =~= Seq::<Proxy>::empty());
            reveal(Seq::filter);
        }
        while i < n
            invariant
                olds == self.waypoints@,
                n == olds.len(),
                i <= n,
                old(self).wf(),
                pred == keeps_node(node_id),
                kept@ == olds.take(i as int).filter(pred),
                forall|a: int|
                    0 <= a < kept@.len() ==> exists|j: int|
                        0 <= j < i && olds[j] == #[trigger] kept@[a],
                forall|a: int|
                    0 <= a < kept@.len() ==> (#[trigger] kept@[a]).location.in_bounds(),
                forall|a: int, b: int|
                    0 <= a < b < kept@.len() ==> #[trigger] kept@[a].node_id
                        <= #[trigger] kept@[b].node_id,
            decreases n - i,
        {
            let w = self.waypoints[i];
            let ghost prev = kept@;
            proof {
                reveal(Seq::filter);
                assert(olds.take(i as int + 1).drop_last() =~= olds.take(i as int));
                assert(olds.take(i as int + 1).last() == olds[i as int]);
            }
            if w.node_id != node_id {
                kept.push(w);
                proof {
                    assert forall|a: int|
                        0 <= a < kept@.len() implies exists|j: int|
                        0 <= j < i + 1 && olds[j] == #[trigger] kept@[a] by {
                        if a < prev.len() {
                            assert(kept@[a] == prev[a]);
                            let j = choose|j: int| 0 <= j < i && olds[j] == prev[a];
                            assert(0 <= j < i + 1 && olds[j] == kept@[a]);
                        } else {
                            assert(olds[i as int] == kept@[a]);
                        }
                    }
                    assert forall|a: int, b: int|
                        0 <= a < b < kept@.len() implies #[trigger] kept@[a].node_id
                        <= #[trigger] kept@[b].node_id by {
                        if b < prev.len() {
                        } else {
                            assert(kept@[a] == prev[a]);
                            let j = choose|j: int| 0 <= j < i && olds[j] == prev[a];
                            assert(olds[j].node_id <= olds[i as int].node_id);
                        }
                    }
                }
            }
            i += 1;
        }
        proof {
            assert(olds.take(n as int) =~= olds);
        }
        self.waypoints = kept;
    }
}

/// Keeping a waypoint when removing the node with the given id.
pub open spec fn keeps_node(node_id: i32) -> spec_fn(Proxy) -> bool {
    |w: Proxy| w.node_id != node_id
}

} // verus!
