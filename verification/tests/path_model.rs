use towerish_side_effects::geometry::Vec3Milli;
use towerish_side_effects::path::{
    MovementType, PathManager, PathManagerUpdate, Proxy, ProxyKind, DEFAULT_DESPAWN_DISTANCE,
};

fn waypoint(node_id: i32, x: i64, y: i64, z: i64) -> Proxy {
    Proxy {
        route_id: 0,
        node_id,
        kind: ProxyKind::Route,
        movement_type: MovementType::Walking,
        location: Vec3Milli { x, y, z },
    }
}

/// A two-point straight path: progress interpolates inside the segment and
/// clamps to the final waypoint past the end.
#[test]
fn position_on_straight_segment() {
    let mut pm = PathManager::new();
    pm.push(waypoint(0, 0, 0, 0));
    pm.push(waypoint(1, 10_000, 0, 0));
    assert_eq!(pm.get_position(5_000), Vec3Milli { x: 5_000, y: 0, z: 0 });
    assert_eq!(pm.get_position(15_000), Vec3Milli { x: 10_000, y: 0, z: 0 });
}

#[test]
fn position_clamps_exactly_at_total_length() {
    let mut pm = PathManager::new();
    pm.push(waypoint(0, 0, 0, 0));
    pm.push(waypoint(1, 10_000, 0, 0));
    assert_eq!(pm.get_position(10_000), Vec3Milli { x: 10_000, y: 0, z: 0 });
    assert_eq!(pm.get_position(u64::MAX), Vec3Milli { x: 10_000, y: 0, z: 0 });
}

#[test]
fn position_zero_is_first_waypoint() {
    let mut pm = PathManager::new();
    pm.push(waypoint(0, 1_000, 2_000, 3_000));
    pm.push(waypoint(1, 9_000, 2_000, 3_000));
    assert_eq!(pm.get_position(0), Vec3Milli { x: 1_000, y: 2_000, z: 3_000 });
}

#[test]
fn single_waypoint_path_returns_it_for_any_progress() {
    let mut pm = PathManager::new();
    pm.push(waypoint(7, 4_000, 5_000, 6_000));
    assert_eq!(pm.get_position(0), Vec3Milli { x: 4_000, y: 5_000, z: 6_000 });
    assert_eq!(pm.get_position(123_456), Vec3Milli { x: 4_000, y: 5_000, z: 6_000 });
}

/// Position across a bend: the whole first segment is consumed, then the
/// second is entered.
#[test]
fn position_crosses_segment_boundary() {
    let mut pm = PathManager::new();
    pm.push(waypoint(0, 0, 0, 0));
    pm.push(waypoint(1, 10_000, 0, 0));
    pm.push(waypoint(2, 10_000, 8_000, 0));
    // 12000 progress: 10000 along x, then 2000 up the second segment
    assert_eq!(pm.get_position(12_000), Vec3Milli { x: 10_000, y: 2_000, z: 0 });
    // exactly the boundary lands on the middle waypoint
    assert_eq!(pm.get_position(10_000), Vec3Milli { x: 10_000, y: 0, z: 0 });
}

/// Waypoints are kept in ascending node-id order no matter the insertion
/// order.
#[test]
fn push_keeps_node_id_order() {
    let mut pm = PathManager::new();
    pm.push(waypoint(5, 5_000, 0, 0));
    pm.push(waypoint(1, 1_000, 0, 0));
    pm.push(waypoint(3, 3_000, 0, 0));
    let start = pm.get_start().unwrap();
    let end = pm.get_end().unwrap();
    assert_eq!(start.node_id, 1);
    assert_eq!(end.node_id, 5);
    assert_eq!(pm.waypoints[0].node_id, 1);
    assert_eq!(pm.waypoints[1].node_id, 3);
    assert_eq!(pm.waypoints[2].node_id, 5);
}

#[test]
fn empty_path_has_no_endpoints_and_errors() {
    let pm = PathManager::new();
    assert!(pm.get_start().is_none());
    assert!(pm.get_end().is_none());
    assert!(pm.try_position_at(0).is_err());
    assert_eq!(pm.despawn_distance, DEFAULT_DESPAWN_DISTANCE);
}

#[test]
fn apply_update_adds_and_removes_nodes() {
    let mut pm = PathManager::new();
    pm.apply_update(&PathManagerUpdate::AddNode(waypoint(2, 2_000, 0, 0)));
    pm.apply_update(&PathManagerUpdate::AddNode(waypoint(1, 1_000, 0, 0)));
    pm.apply_update(&PathManagerUpdate::AddNode(waypoint(3, 3_000, 0, 0)));
    assert_eq!(pm.waypoints.len(), 3);
    pm.apply_update(&PathManagerUpdate::RemoveNode(waypoint(2, 2_000, 0, 0)));
    assert_eq!(pm.waypoints.len(), 2);
    assert_eq!(pm.waypoints[0].node_id, 1);
    assert_eq!(pm.waypoints[1].node_id, 3);
}

#[test]
fn diagonal_distance_is_euclidean() {
    let mut pm = PathManager::new();
    pm.push(waypoint(0, 0, 0, 0));
    pm.push(waypoint(1, 3_000, 4_000, 0));
    // segment length is 5000; halfway lands at (1500, 2000, 0)
    assert_eq!(pm.get_position(2_500), Vec3Milli { x: 1_500, y: 2_000, z: 0 });
    assert_eq!(pm.get_position(5_000), Vec3Milli { x: 3_000, y: 4_000, z: 0 });
}
