use relay_global_id::codec::encode;
use relay_global_id::dispatch::{Dispatcher, Target};
use relay_global_id::registry::NodeRegistry;

const UUID: &str = "123e4567-e89b-12d3-a456-426614174000";

fn dispatcher() -> Dispatcher {
    Dispatcher::new(NodeRegistry::new(vec!["Tenant".to_string(), "User".to_string()]))
}

fn describe(target: Target) -> Option<String> {
    Some(format!("{}#{}:{}", target.name(), target.tag(), target.local_id()))
}

#[test]
fn scenario_user_at_tag_two() {
    let global = encode(UUID, 2);
    assert_eq!(global, "123e4567e89b12d3a4564266141740002");
    let d = dispatcher();
    assert_eq!(d.registry().lookup("2"), Some(&"User".to_string()));
    let target = d.route(&global).unwrap();
    assert_eq!(target.tag(), 2);
    assert_eq!(target.name(), "User");
    assert_eq!(target.local_id(), UUID);
    let node = d.get(&global, describe).unwrap();
    assert_eq!(node.tag(), 2);
    assert_eq!(node.value(), "User#2:123e4567-e89b-12d3-a456-426614174000");
}

#[test]
fn route_of_a_short_identifier_is_none() {
    let d = dispatcher();
    assert!(d.route("").is_none());
    assert!(d.route("2").is_none());
    assert!(d.route("123e4567e89b12d3a45642661417400").is_none());
}

#[test]
fn route_of_an_unknown_tag_is_none() {
    let d = dispatcher();
    for tag in ["", "0", "3", "02", " 2", "2 ", "22", "x"] {
        let global = "123e4567e89b12d3a456426614174000".to_string() + tag;
        assert!(d.route(&global).is_none());
    }
}

#[test]
fn get_asks_no_loader_for_a_short_identifier() {
    let d = dispatcher();
    let node = d.get("123e4567e89b12d3a4564", |_target: Target| -> Option<u8> {
        panic!("the loader must not be asked")
    });
    assert!(node.is_none());
}

#[test]
fn get_asks_no_loader_for_an_unknown_tag() {
    let d = dispatcher();
    for global in [
        "123e4567e89b12d3a456426614174000",
        "123e4567e89b12d3a4564266141740000",
        "123e4567e89b12d3a4564266141740003",
        "123e4567e89b12d3a45642661417400002",
        "123e4567e89b12d3a456426614174000 2",
    ] {
        let node = d.get(global, |_target: Target| -> Option<u8> {
            panic!("the loader must not be asked")
        });
        assert!(node.is_none());
    }
}

#[test]
fn get_is_none_when_the_loader_finds_nothing() {
    let d = dispatcher();
    let mut asked = Vec::new();
    let node = d.get(&encode(UUID, 1), |target: Target| -> Option<u8> {
        asked.push((target.tag(), target.local_id().clone()));
        None
    });
    assert!(node.is_none());
    assert_eq!(asked, vec![(1, UUID.to_string())]);
}

#[test]
fn get_wraps_what_the_loader_found() {
    let d = dispatcher();
    let node = d.get(&encode(UUID, 1), |target: Target| Some(target.local_id().len())).unwrap();
    assert_eq!(node.tag(), 1);
    assert_eq!(*node.value(), 36);
    assert_eq!(node.into_value(), 36);
}

#[test]
fn get_hands_the_loader_the_canonical_identifier() {
    let d = dispatcher();
    let node = d.get("00000000000040008000ffffffffffff2", describe).unwrap();
    assert_eq!(node.into_value(), "User#2:00000000-0000-4000-8000-ffffffffffff");
}

#[test]
fn wrap_keeps_absence_and_tags_presence() {
    let d = dispatcher();
    let target = d.route(&encode(UUID, 2)).unwrap();
    assert!(Dispatcher::wrap::<u8>(&target, None).is_none());
    let node = Dispatcher::wrap(&target, Some("found")).unwrap();
    assert_eq!(node.tag(), 2);
    assert_eq!(*node.value(), "found");
}

#[test]
fn every_encoded_identifier_is_routed_back() {
    let names: Vec<String> = (1..=25).map(|n| format!("Type{}", n)).collect();
    let d = Dispatcher::new(NodeRegistry::new(names.clone()));
    for (position, name) in names.iter().enumerate() {
        let tag = position as u64 + 1;
        let target = d.route(&encode(UUID, tag)).unwrap();
        assert_eq!(target.tag(), tag);
        assert_eq!(target.name(), name);
        assert_eq!(target.local_id(), UUID);
    }
    assert!(d.route(&encode(UUID, 0)).is_none());
    assert!(d.route(&encode(UUID, 26)).is_none());
}
