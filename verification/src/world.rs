//! The map's named scene nodes, parsed into gameplay elements: names
//! starting with `tower` place a tower base (graded by a tagged suffix),
//! names starting with `proxy` are route waypoints
//! (`proxy,kind,route_id,node_id,movement_type`), and names starting with
//! `portal` mark the spawn point. A malformed name is a fatal map-authoring
//! error and surfaces as such, never as a silent skip.

use vstd::prelude::*;
use crate::GameError;
use crate::geometry::Vec3Milli;
use crate::parse::{int_value, is_int_literal, parse_i32};
use crate::path::{MovementType, PathManager, Proxy, ProxyKind, DEFAULT_DESPAWN_DISTANCE};

verus! {

/// The index of the first occurrence of `b`, or -1 when absent.
pub open spec fn first_index_of(s: Seq<u8>, b: u8) -> int
    decreases s.len(),
{
    if s.len() == 0 {
        -1
    } else if s[0] == b {
        0
    } else {
        let r = first_index_of(s.drop_first(), b);
        if r == -1 {
            -1
        } else {
            r + 1
        }
    }
}

pub proof fn lemma_first_index_of(s: Seq<u8>, b: u8)
    ensures
        first_index_of(s, b) == -1 ==> forall|j: int| 0 <= j < s.len() ==> s[j] != b,
        first_index_of(s, b) != -1 ==> {
            let r = first_index_of(s, b);
            &&& 0 <= r < s.len()
            &&& s[r] == b
            &&& forall|j: int| 0 <= j < r ==> s[j] != b
        },
    decreases s.len(),
{
    if s.len() > 0 && s[0] != b {
        let t = s.drop_first();
        lemma_first_index_of(t, b);
        let r = first_index_of(s, b);
        if first_index_of(t, b) == -1 {
            assert forall|j: int| 0 <= j < s.len() implies s[j] != b by {
                if j > 0 {
                    assert(t[j - 1] == s[j]);
                }
            }
        } else {
            assert(s[r] == t[r - 1]);
            assert forall|j: int| 0 <= j < r implies s[j] != b by {
                if j > 0 {
                    assert(t[j - 1] == s[j]);
                }
            }
        }
    }
}

/// The first occurrence is pinned by its characterization.
pub proof fn lemma_first_index_unique(s: Seq<u8>, b: u8, i: int)
    requires
        0 <= i < s.len(),
        s[i] == b,
        forall|j: int| 0 <= j < i ==> s[j] != b,
    ensures
        first_index_of(s, b) == i,
{
    lemma_first_index_of(s, b);
    let r = first_index_of(s, b);
    if r == -1 {
        assert(s[i] != b);
    } else if r < i {
        assert(s[r] != b);
    } else if r > i {
        assert(s[i] != b);
    }
}

/// No occurrence at all is pinned the same way.
pub proof fn lemma_first_index_none(s: Seq<u8>, b: u8)
    requires
        forall|j: int| 0 <= j < s.len() ==> s[j] != b,
    ensures
        first_index_of(s, b) == -1,
{
    lemma_first_index_of(s, b);
    let r = first_index_of(s, b);
    if r != -1 {
        assert(s[r] != b);
    }
}

/// The first occurrence of `b` in `s` at or after `from`.
fn find_first(s: &[u8], from: usize, b: u8) -> (r: Option<usize>)
    requires
        from <= s@.len(),
    ensures
        match r {
            Some(i) => from <= i < s@.len() && s@[i as int] == b && forall|j: int|
                from <= j < i ==> s@[j] != b,
            None => forall|j: int| from <= j < s@.len() ==> s@[j] != b,
        },
{
    let n = s.len();
    let mut i: usize = from;
    while i < n
        invariant
            from <= i <= n,
            n == s@.len(),
            forall|j: int| from <= j < i ==> s@[j] != b,
        decreases n - i,
    {
        if s[i] == b {
            return Some(i);
        }
        i += 1;
    }
    None
}

/// A copy of the byte range `[from, to)`.
fn copy_range(s: &[u8], from: usize, to: usize) -> (r: Vec<u8>)
    requires
        from <= to <= s@.len(),
    ensures
        r@ == s@.subrange(from as int, to as int),
{
    let mut r: Vec<u8> = Vec::new();
    let mut i: usize = from;
    proof {
        assert(r@ =~= s@.subrange(from as int, from as int));
    }
    while i < to
        invariant
            from <= i <= to <= s@.len(),
            r@ == s@.subrange(from as int, i as int),
        decreases to - i,
    {
        r.push(s[i]);
        proof {
            assert(s@.subrange(from as int, i as int).push(s@[i as int]) =~= s@.subrange(
                from as int,
                i as int + 1,
            ));
        }
        i += 1;
    }
    r
}

/// The comma-separated fields of a byte string; always at least one field,
/// and one more for every comma.
pub open spec fn split_fields(s: Seq<u8>) -> Seq<Seq<u8>>
    decreases s.len(),
{
    if s.len() == 0 {
        seq![Seq::<u8>::empty()]
    } else if s[0] == 44 {
        seq![Seq::<u8>::empty()] + split_fields(s.drop_first())
    } else {
        let rest = split_fields(s.drop_first());
        seq![seq![s[0]] + rest[0]] + rest.drop_first()
    }
}

pub proof fn lemma_split_fields_nonempty(s: Seq<u8>)
    ensures
        split_fields(s).len() >= 1,
    decreases s.len(),
{
    if s.len() > 0 {
        lemma_split_fields_nonempty(s.drop_first());
    }
}

/// A comma-free string is one single field.
pub proof fn lemma_split_no_comma(s: Seq<u8>)
    requires
        forall|j: int| 0 <= j < s.len() ==> s[j] != 44,
    ensures
        split_fields(s) =~= seq![s],
    decreases s.len(),
{
    if s.len() == 0 {
        assert(s =~= Seq::<u8>::empty());
    } else {
        let t = s.drop_first();
        assert forall|j: int| 0 <= j < t.len() implies t[j] != 44 by {
            assert(t[j] == s[j + 1]);
        }
        lemma_split_no_comma(t);
        assert(split_fields(t).drop_first() =~= Seq::<Seq<u8>>::empty());
        assert(seq![s[0]] + t =~= s);
    }
}

/// Splitting cuts at the first comma: the part before it is the first
/// field, and the rest splits on its own.
pub proof fn lemma_split_at_first_comma(s: Seq<u8>, i: int)
    requires
        0 <= i < s.len(),
        s[i] == 44,
        forall|j: int| 0 <= j < i ==> s[j] != 44,
    ensures
        split_fields(s) =~= seq![s.subrange(0, i)] + split_fields(
            s.subrange(i + 1, s.len() as int),
        ),
    decreases i,
{
    if i == 0 {
        assert(s.subrange(0, 0) =~= Seq::<u8>::empty());
        assert(s.drop_first() =~= s.subrange(1, s.len() as int));
    } else {
        let t = s.drop_first();
        assert(t[i - 1] == 44);
        lemma_split_at_first_comma(t, i - 1);
        assert(seq![s[0]] + t.subrange(0, i - 1) =~= s.subrange(0, i));
        assert(t.subrange(i, t.len() as int) =~= s.subrange(i + 1, s.len() as int));
        lemma_split_fields_nonempty(t.subrange(i, t.len() as int));
    }
}

/// The byte views of a list of byte vectors.
pub open spec fn views(parts: Seq<Vec<u8>>) -> Seq<Seq<u8>> {
    parts.map_values(|v: Vec<u8>| v@)
}

/// Split a name on commas; the fields come back in order, exactly as
/// `split_fields` describes them.
pub fn split_bytes(s: &[u8]) -> (parts: Vec<Vec<u8>>)
    ensures
        views(parts@) == split_fields(s@),
{
    let n = s.len();
    let mut parts: Vec<Vec<u8>> = Vec::new();
    let mut start: usize = 0;
    proof {
        assert(s@.skip(0) =~= s@);
    }
    loop
        invariant
            start <= n,
            n == s@.len(),
            split_fields(s@) =~= views(parts@) + split_fields(s@.skip(start as int)),
        decreases n - start,
    {
        let ghost before = parts@;
        match find_first(s, start, 44) {
            Some(c) => {
                let field = copy_range(s, start, c);
                parts.push(field);
                proof {
                    let t = s@.skip(start as int);
                    assert(t[c - start] == 44);
                    lemma_split_at_first_comma(t, c - start as int);
                    assert(t.subrange(0, c - start as int) =~= s@.subrange(start as int, c as int));
                    assert(t.subrange(c - start as int + 1, t.len() as int) =~= s@.skip(
                        c as int + 1,
                    ));
                    assert(views(parts@) =~= views(before).push(field@));
                }
                start = c + 1;
            },
            None => {
                let field = copy_range(s, start, n);
                parts.push(field);
                proof {
                    let t = s@.skip(start as int);
                    lemma_split_no_comma(t);
                    assert(t =~= s@.subrange(start as int, n as int));
                    assert(views(parts@) =~= views(before).push(field@));
                    assert(views(before) + split_fields(t) =~= views(parts@));
                }
                return parts;
            },
        }
    }
}

/// A tower-base scene node, graded by the tag in its name; the payload is
/// the free-form label after the tag.
#[derive(Debug, Clone, PartialEq, Eq)]
pub enum TowerBase {
    Bad(Vec<u8>),
    Normal(Vec<u8>),
    Super(Vec<u8>),
}

impl TowerBase {
    pub open spec fn spec_label(self) -> Seq<u8> {
        match self {
            TowerBase::Bad(x) => x@,
            TowerBase::Normal(x) => x@,
            TowerBase::Super(x) => x@,
        }
    }

    /// The label the node carried after its grade tag.
    pub fn label(&self) -> (r: &Vec<u8>)
        ensures
            r@ == self.spec_label(),
    {
        match self {
            TowerBase::Bad(x) => x,
            TowerBase::Normal(x) => x,
            TowerBase::Super(x) => x,
        }
    }
}

/// The tag bytes marking a low-grade tower base (`-1`).
pub open spec fn bad_tag() -> Seq<u8> {
    seq![45u8, 49u8]
}

/// The tag bytes marking a normal tower base (`0`).
pub open spec fn normal_tag() -> Seq<u8> {
    seq![48u8]
}

/// The tag bytes marking a superior tower base (`1`).
pub open spec fn super_tag() -> Seq<u8> {
    seq![49u8]
}

/// The grade tag of a tower-base name: what stands between the first comma
/// and the first dot after it.
pub open spec fn tb_tag(s: Seq<u8>) -> Seq<u8> {
    let c = first_index_of(s, 44);
    let rest = s.subrange(c + 1, s.len() as int);
    rest.subrange(0, first_index_of(rest, 46))
}

/// The label of a tower-base name: what follows the first dot after the
/// first comma.
pub open spec fn tb_extra(s: Seq<u8>) -> Seq<u8> {
    let c = first_index_of(s, 44);
    let rest = s.subrange(c + 1, s.len() as int);
    rest.subrange(first_index_of(rest, 46) + 1, rest.len() as int)
}

/// Why a tower-base name does not parse, if it does not.
pub open spec fn spec_tower_base_error(s: Seq<u8>) -> Option<GameError> {
    let c = first_index_of(s, 44);
    if c == -1 {
        Some(GameError::MissingComma)
    } else {
        let rest = s.subrange(c + 1, s.len() as int);
        if first_index_of(rest, 46) == -1 {
            Some(GameError::MissingDot)
        } else if tb_tag(s) != bad_tag() && tb_tag(s) != normal_tag() && tb_tag(s) != super_tag() {
            Some(GameError::UnknownTowerTag)
        } else {
            None
        }
    }
}

/// Parse a tower-base name: `<prefix>,<tag>.<label>`, where the tag grades
/// the base. Every malformed shape surfaces as its own error.
pub fn parse_tower_base(s: &[u8]) -> (r: Result<TowerBase, GameError>)
    ensures
        match r {
            Ok(tb) => spec_tower_base_error(s@) is None && tb.spec_label() == tb_extra(s@) && (
            match tb {
                TowerBase::Bad(_) => tb_tag(s@) == bad_tag(),
                TowerBase::Normal(_) => tb_tag(s@) == normal_tag(),
                TowerBase::Super(_) => tb_tag(s@) == super_tag(),
            }),
            Err(e) => spec_tower_base_error(s@) == Some(e),
        },
{
    let n = s.len();
    let c = match find_first(s, 0, 44) {
        Some(c) => c,
        None => {
            proof {
                lemma_first_index_none(s@, 44);
            }
            return Err(GameError::MissingComma);
        },
    };
    proof {
        lemma_first_index_unique(s@, 44, c as int);
    }
    let ghost rest = s@.subrange(c as int + 1, n as int);
    let dabs = match find_first(s, c + 1, 46) {
        Some(d) => d,
        None => {
            proof {
                assert forall|j: int| 0 <= j < rest.len() implies rest[j] != 46 by {
                    assert(rest[j] == s@[c + 1 + j]);
                }
                lemma_first_index_none(rest, 46);
            }
            return Err(GameError::MissingDot);
        },
    };
    let d = dabs - (c + 1);
    proof {
        assert(rest[d as int] == s@[dabs as int]);
        assert forall|j: int| 0 <= j < d implies rest[j] != 46 by {
            assert(rest[j] == s@[c + 1 + j]);
        }
        lemma_first_index_unique(rest, 46, d as int);
        assert(tb_tag(s@) =~= s@.subrange(c as int + 1, dabs as int));
        assert(tb_extra(s@) =~= s@.subrange(dabs as int + 1, n as int));
    }
    let extra = copy_range(s, dabs + 1, n);
    if d == 2 && s[c + 1] == 45 && s[c + 2] == 49 {
        proof {
            assert(tb_tag(s@) =~= bad_tag());
        }
        Ok(TowerBase::Bad(extra))
    } else if d == 1 && s[c + 1] == 48 {
        proof {
            assert(tb_tag(s@) =~= normal_tag());
        }
        Ok(TowerBase::Normal(extra))
    } else if d == 1 && s[c + 1] == 49 {
        proof {
            assert(tb_tag(s@) =~= super_tag());
        }
        Ok(TowerBase::Super(extra))
    } else {
        proof {
            let tag = tb_tag(s@);
            assert(tag.len() == d);
            if tag == bad_tag() {
                assert(tag[0] == s@[c + 1] && tag[1] == s@[c + 2]);
                assert(false);
            }
            if tag == normal_tag() {
                assert(tag[0] == s@[c + 1]);
                assert(false);
            }
            if tag == super_tag() {
                assert(tag[0] == s@[c + 1]);
                assert(false);
            }
        }
        Err(GameError::UnknownTowerTag)
    }
}

/// The bytes of the walking movement tag.
pub open spec fn walk_bytes() -> Seq<u8> {
    seq![119u8, 97u8, 108u8, 107u8]
}

/// Why a route-node name does not parse, if it does not: it needs at least
/// five comma-separated fields, with a route id and a node id that fit
/// `i32`.
pub open spec fn spec_proxy_error(s: Seq<u8>) -> Option<GameError> {
    let parts = split_fields(s);
    if parts.len() < 5 {
        Some(GameError::MissingField)
    } else if !(is_int_literal(parts[2]) && i32::MIN <= int_value(parts[2]) <= i32::MAX) {
        Some(GameError::BadNumber)
    } else if !(is_int_literal(parts[3]) && i32::MIN <= int_value(parts[3]) <= i32::MAX) {
        Some(GameError::BadNumber)
    } else {
        None
    }
}

/// The waypoint a well-formed route-node name denotes, placed at the
/// origin; the caller fills in the node's world location.
pub open spec fn spec_proxy(s: Seq<u8>) -> Proxy
    recommends
        spec_proxy_error(s) is None,
{
    let parts = split_fields(s);
    Proxy {
        route_id: int_value(parts[2]) as i32,
        node_id: int_value(parts[3]) as i32,
        kind: ProxyKind::Route,
        movement_type: if parts[4] == walk_bytes() {
            MovementType::Walking
        } else {
            MovementType::Falling
        },
        location: Vec3Milli::spec_zero(),
    }
}

/// Parse a route-node name `<prefix>,<kind>,<route_id>,<node_id>,<movement>`
/// into a waypoint at the origin. Every malformed shape surfaces as its own
/// error.
pub fn parse_proxy(s: &[u8]) -> (r: Result<Proxy, GameError>)
    ensures
        r == match spec_proxy_error(s@) {
            Some(e) => Result::<Proxy, GameError>::Err(e),
            None => Result::<Proxy, GameError>::Ok(spec_proxy(s@)),
        },
{
    let parts = split_bytes(s);
    proof {
        assert(views(parts@).len() == parts@.len());
    }
    if parts.len() < 5 {
        return Err(GameError::MissingField);
    }
    proof {
        assert(split_fields(s@)[2] == parts@[2]@);
        assert(split_fields(s@)[3] == parts@[3]@);
        assert(split_fields(s@)[4] == parts@[4]@);
    }
    let route_id = match parse_i32(parts[2].as_slice()) {
        Some(v) => v,
        None => {
            return Err(GameError::BadNumber);
        },
    };
    let node_id = match parse_i32(parts[3].as_slice()) {
        Some(v) => v,
        None => {
            return Err(GameError::BadNumber);
        },
    };
    let p4 = &parts[4];
    let walking = p4.len() == 4 && p4[0] == 119 && p4[1] == 97 && p4[2] == 108 && p4[3] == 107;
    proof {
        if walking {
            assert(p4@ =~= walk_bytes());
        } else {
            if p4@ == walk_bytes() {
                assert(p4@.len() == 4);
                assert(p4@[0] == 119 && p4@[1] == 97 && p4@[2] == 108 && p4@[3] == 107);
            }
        }
    }
    Ok(
        Proxy {
            route_id,
            node_id,
            kind: ProxyKind::Route,
            movement_type: if walking {
                MovementType::Walking
            } else {
                MovementType::Falling
            },
            location: Vec3Milli::zero(),
        },
    )
}

/// ASCII lower-casing of one byte.
pub open spec fn lower_byte(b: u8) -> u8 {
    if 65 <= b <= 90 {
        (b + 32) as u8
    } else {
        b
    }
}

/// The name begins, case-insensitively, with the (lower-case) prefix.
pub open spec fn has_prefix_ci(s: Seq<u8>, p: Seq<u8>) -> bool {
    s.len() >= p.len() && forall|i: int| 0 <= i < p.len() ==> lower_byte(s[i]) == #[trigger] p[i]
}

fn starts_with_ci(s: &[u8], p: &[u8]) -> (r: bool)
    ensures
        r == has_prefix_ci(s@, p@),
{
    let m = p.len();
    if s.len() < m {
        return false;
    }
    let mut i: usize = 0;
    while i < m
        invariant
            i <= m,
            m == p@.len(),
            m <= s@.len(),
            forall|j: int| 0 <= j < i ==> lower_byte(s@[j]) == #[trigger] p@[j],
        decreases m - i,
    {
        let b = s[i];
        let lowered: u8 = if 65 <= b && b <= 90 {
            b + 32
        } else {
            b
        };
        if lowered != p[i] {
            return false;
        }
        i += 1;
    }
    true
}

/// What a named scene node stands for, by its (case-insensitive) name
/// prefix.
#[derive(Clone, Copy, Debug, PartialEq, Eq, Structural)]
pub enum NodeRole {
    Tower,
    Route,
    Portal,
    Decoration,
}

pub open spec fn tower_prefix() -> Seq<u8> {
    seq![116u8, 111u8, 119u8, 101u8, 114u8]
}

pub open spec fn proxy_prefix() -> Seq<u8> {
    seq![112u8, 114u8, 111u8, 120u8, 121u8]
}

pub open spec fn portal_prefix() -> Seq<u8> {
    seq![112u8, 111u8, 114u8, 116u8, 97u8, 108u8]
}

/// The role of a named node: `tower` places a tower base, `proxy` a route
/// waypoint, `portal` the spawn point; anything else is scenery.
pub open spec fn spec_classify(s: Seq<u8>) -> NodeRole {
    if has_prefix_ci(s, tower_prefix()) {
        NodeRole::Tower
    } else if has_prefix_ci(s, proxy_prefix()) {
        NodeRole::Route
    } else if has_prefix_ci(s, portal_prefix()) {
        NodeRole::Portal
    } else {
        NodeRole::Decoration
    }
}

pub fn classify_node(s: &[u8]) -> (r: NodeRole)
    ensures
        r == spec_classify(s@),
{
    let tower_p: Vec<u8> = vec![116u8, 111, 119, 101, 114];
    let proxy_p: Vec<u8> = vec![112u8, 114, 111, 120, 121];
    let portal_p: Vec<u8> = vec![112u8, 111, 114, 116, 97, 108];
    proof {
        assert(tower_p@ =~= tower_prefix());
        assert(proxy_p@ =~= proxy_prefix());
        assert(portal_p@ =~= portal_prefix());
    }
    if starts_with_ci(s, tower_p.as_slice()) {
        NodeRole::Tower
    } else if starts_with_ci(s, proxy_p.as_slice()) {
        NodeRole::Route
    } else if starts_with_ci(s, portal_p.as_slice()) {
        NodeRole::Portal
    } else {
        NodeRole::Decoration
    }
}

/// The number of route nodes among the named scene nodes.
pub open spec fn route_count(nodes: Seq<(Vec<u8>, Vec3Milli)>) -> int
    decreases nodes.len(),
{
    if nodes.len() == 0 {
        0
    } else {
        route_count(nodes.drop_last()) + if spec_classify(nodes.last().0@) is Route {
            1int
        } else {
            0
        }
    }
}

/// Build the level's route from the map's named nodes: every `proxy` node
/// is parsed and inserted into the path at its node-id position, carrying
/// the node's world location. The first malformed route name aborts the
/// load with its error — the path would otherwise be silently wrong.
pub fn build_route(nodes: &Vec<(Vec<u8>, Vec3Milli)>) -> (r: Result<PathManager, GameError>)
    requires
        forall|i: int| 0 <= i < nodes@.len() ==> (#[trigger] nodes@[i]).1.in_bounds(),
    ensures
        match r {
            Ok(pm) => {
                &&& pm.wf()
                &&& pm.despawn_distance == DEFAULT_DESPAWN_DISTANCE
                &&& pm.waypoints@.len() == route_count(nodes@)
                &&& forall|i: int|
                    0 <= i < nodes@.len() && spec_classify(
                        (#[trigger] nodes@[i]).0@,
                    ) is Route ==> spec_proxy_error(nodes@[i].0@) is None
                &&& forall|k: int|
                    0 <= k < pm.waypoints@.len() ==> exists|i: int|
                        0 <= i < nodes@.len() && spec_classify((#[trigger] nodes@[i]).0@) is Route
                            && spec_proxy_error(nodes@[i].0@) is None
                            && #[trigger] pm.waypoints@[k] == (Proxy {
                            location: nodes@[i].1,
                            ..spec_proxy(nodes@[i].0@)
                        })
            },
            Err(e) => exists|i: int|
                0 <= i < nodes@.len() && spec_classify((#[trigger] nodes@[i]).0@) is Route
                    && spec_proxy_error(nodes@[i].0@) == Some(e),
        },
{
    let n = nodes.len();
    let mut pm = PathManager::new();
    let mut i: usize = 0;
    proof {
        assert(nodes@.take(0) =~= Seq::<(Vec<u8>, Vec3Milli)>::empty());
    }
    while i < n
        invariant
            i <= n,
            n == nodes@.len(),
            forall|j: int| 0 <= j < nodes@.len() ==> (#[trigger] nodes@[j]).1.in_bounds(),
            pm.wf(),
            pm.despawn_distance == DEFAULT_DESPAWN_DISTANCE,
            pm.waypoints@.len() == route_count(nodes@.take(i as int)),
            forall|j: int|
                0 <= j < i && spec_classify((#[trigger] nodes@[j]).0@) is Route ==> spec_proxy_error(
                    nodes@[j].0@,
                ) is None,
            forall|k: int|
                0 <= k < pm.waypoints@.len() ==> exists|j: int|
                    0 <= j < i && spec_classify((#[trigger] nodes@[j]).0@) is Route
                        && spec_proxy_error(nodes@[j].0@) is None && #[trigger] pm.waypoints@[k]
                        == (Proxy { location: nodes@[j].1, ..spec_proxy(nodes@[j].0@) }),
        decreases n - i,
    {
        proof {
            assert(nodes@.take(i as int + 1).drop_last() =~= nodes@.take(i as int));
            assert(nodes@.take(i as int + 1).last() == nodes@[i as int]);
        }
        let role = classify_node(nodes[i].0.as_slice());
        if matches!(role, NodeRole::Route) {
            let mut proxy = match parse_proxy(nodes[i].0.as_slice()) {
                Ok(p) => p,
                Err(e) => {
                    return Err(e);
                },
            };
            proxy.location = nodes[i].1;
            let ghost before = pm.waypoints@;
            pm.push(proxy);
            proof {
                let k0 = choose|k0: int|
                    0 <= k0 <= before.len() && pm.waypoints@ == before.insert(k0, proxy);
                assert forall|k: int| 0 <= k < pm.waypoints@.len() implies exists|j: int|
                    0 <= j < i + 1 && spec_classify((#[trigger] nodes@[j]).0@) is Route
                        && spec_proxy_error(nodes@[j].0@) is None && #[trigger] pm.waypoints@[k]
                        == (Proxy { location: nodes@[j].1, ..spec_proxy(nodes@[j].0@) }) by {
                    if k < k0 {
                        assert(pm.waypoints@[k] == before[k]);
                    } else if k == k0 {
                        assert(pm.waypoints@[k] == proxy);
                        assert(0 <= i < i + 1 && spec_classify(nodes@[i as int].0@) is Route
                            && spec_proxy_error(nodes@[i as int].0@) is None && pm.waypoints@[k]
                            == (Proxy {
                            location: nodes@[i as int].1,
                            ..spec_proxy(nodes@[i as int].0@)
                        }));
                    } else {
                        assert(pm.waypoints@[k] == before[k - 1]);
                    }
                }
            }
        }
        i += 1;
    }
    proof {
        assert(nodes@.take(n as int) =~= nodes@);
    }
    Ok(pm)
}

} // verus!
