use towerish_side_effects::geometry::Vec3Milli;
use towerish_side_effects::parse::parse_i32;
use towerish_side_effects::path::{MovementType, ProxyKind};
use towerish_side_effects::world::{
    build_route, classify_node, parse_proxy, parse_tower_base, split_bytes, NodeRole, TowerBase,
};
use towerish_side_effects::GameError;

#[test]
fn integers_parse_exactly() {
    assert_eq!(parse_i32(b"0"), Some(0));
    assert_eq!(parse_i32(b"123"), Some(123));
    assert_eq!(parse_i32(b"-45"), Some(-45));
    assert_eq!(parse_i32(b"2147483647"), Some(i32::MAX));
    assert_eq!(parse_i32(b"-2147483648"), Some(i32::MIN));
    assert_eq!(parse_i32(b"0012"), Some(12));
    assert_eq!(parse_i32(b""), None);
    assert_eq!(parse_i32(b"-"), None);
    assert_eq!(parse_i32(b"12a"), None);
    assert_eq!(parse_i32(b"2147483648"), None);
    assert_eq!(parse_i32(b"-2147483649"), None);
    assert_eq!(parse_i32(b"99999999999999999999"), None);
}

#[test]
fn split_cuts_on_every_comma() {
    let parts = split_bytes(b"a,bc,,d");
    let views: Vec<&[u8]> = parts.iter().map(|v| v.as_slice()).collect();
    assert_eq!(views, vec![b"a" as &[u8], b"bc", b"", b"d"]);
    let parts = split_bytes(b"plain");
    assert_eq!(parts.len(), 1);
    assert_eq!(parts[0].as_slice(), b"plain");
}

#[test]
fn tower_base_names_parse_by_grade() {
    match parse_tower_base(b"tower,-1.north").unwrap() {
        TowerBase::Bad(label) => assert_eq!(label.as_slice(), b"north"),
        other => panic!("wrong grade: {:?}", other),
    }
    match parse_tower_base(b"tower,0.mid").unwrap() {
        TowerBase::Normal(label) => assert_eq!(label.as_slice(), b"mid"),
        other => panic!("wrong grade: {:?}", other),
    }
    match parse_tower_base(b"tower,1.crest").unwrap() {
        TowerBase::Super(label) => assert_eq!(label.as_slice(), b"crest"),
        other => panic!("wrong grade: {:?}", other),
    }
}

#[test]
fn malformed_tower_base_names_surface_errors() {
    assert_eq!(parse_tower_base(b"towerbase"), Err(GameError::MissingComma));
    assert_eq!(parse_tower_base(b"tower,-1north"), Err(GameError::MissingDot));
    assert_eq!(parse_tower_base(b"tower,2.x"), Err(GameError::UnknownTowerTag));
    assert_eq!(parse_tower_base(b"tower,.x"), Err(GameError::UnknownTowerTag));
}

#[test]
fn proxy_names_parse_into_waypoints() {
    let p = parse_proxy(b"proxy,route,7,42,walk").unwrap();
    assert_eq!(p.route_id, 7);
    assert_eq!(p.node_id, 42);
    assert_eq!(p.movement_type, MovementType::Walking);
    assert_eq!(p.location, Vec3Milli { x: 0, y: 0, z: 0 });
    let p = parse_proxy(b"proxy,route,-1,3,fall").unwrap();
    assert_eq!(p.route_id, -1);
    assert_eq!(p.movement_type, MovementType::Falling);
}

#[test]
fn malformed_proxy_names_surface_errors() {
    assert_eq!(parse_proxy(b"proxy,route,1,2"), Err(GameError::MissingField));
    assert_eq!(parse_proxy(b"proxy"), Err(GameError::MissingField));
    assert_eq!(parse_proxy(b"proxy,route,x,2,walk"), Err(GameError::BadNumber));
    assert_eq!(parse_proxy(b"proxy,route,1,99999999999,walk"), Err(GameError::BadNumber));
}

#[test]
fn proxy_kinds_have_their_scene_names() {
    assert_eq!(ProxyKind::Route.label(), "route");
    assert_eq!(ProxyKind::Portal.label(), "portal");
}

#[test]
fn node_names_classify_by_prefix_case_insensitively() {
    assert_eq!(classify_node(b"tower,0.a"), NodeRole::Tower);
    assert_eq!(classify_node(b"Tower,0.a"), NodeRole::Tower);
    assert_eq!(classify_node(b"PROXY,route,1,2,walk"), NodeRole::Route);
    assert_eq!(classify_node(b"portal"), NodeRole::Portal);
    assert_eq!(classify_node(b"Portal_main"), NodeRole::Portal);
    assert_eq!(classify_node(b"rock_03"), NodeRole::Decoration);
    assert_eq!(classify_node(b"tow"), NodeRole::Decoration);
}

#[test]
fn build_route_collects_proxies_in_node_order() {
    let nodes: Vec<(Vec<u8>, Vec3Milli)> = vec![
        (b"portal".to_vec(), Vec3Milli { x: 0, y: 0, z: 0 }),
        (b"proxy,route,1,2,walk".to_vec(), Vec3Milli { x: 10_000, y: 0, z: 0 }),
        (b"rock".to_vec(), Vec3Milli { x: 5, y: 5, z: 5 }),
        (b"proxy,route,1,1,walk".to_vec(), Vec3Milli { x: 0, y: 0, z: 0 }),
        (b"tower,0.a".to_vec(), Vec3Milli { x: 1, y: 2, z: 3 }),
    ];
    let pm = build_route(&nodes).unwrap();
    assert_eq!(pm.waypoints.len(), 2);
    assert_eq!(pm.waypoints[0].node_id, 1);
    assert_eq!(pm.waypoints[0].location, Vec3Milli { x: 0, y: 0, z: 0 });
    assert_eq!(pm.waypoints[1].node_id, 2);
    assert_eq!(pm.waypoints[1].location, Vec3Milli { x: 10_000, y: 0, z: 0 });
}

#[test]
fn build_route_fails_loudly_on_a_malformed_proxy() {
    let nodes: Vec<(Vec<u8>, Vec3Milli)> = vec![
        (b"proxy,route,1,1,walk".to_vec(), Vec3Milli { x: 0, y: 0, z: 0 }),
        (b"proxy,oops".to_vec(), Vec3Milli { x: 1, y: 0, z: 0 }),
    ];
    assert!(matches!(build_route(&nodes), Err(GameError::MissingField)));
}
