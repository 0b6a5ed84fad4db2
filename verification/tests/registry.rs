use relay_global_id::registry::NodeRegistry;

fn names(list: &[&str]) -> Vec<String> {
    let mut out = Vec::new();
    for name in list {
        out.push(name.to_string());
    }
    out
}

#[test]
fn tags_follow_the_order_of_declaration() {
    let registry = NodeRegistry::new(names(&["Tenant", "User", "Invoice"]));
    assert_eq!(registry.len(), 3);
    assert_eq!(registry.tag_of(0), Some(1));
    assert_eq!(registry.tag_of(1), Some(2));
    assert_eq!(registry.tag_of(2), Some(3));
    assert_eq!(registry.tag_of(3), None);
    assert_eq!(registry.name_at(0), Some(&"Tenant".to_string()));
    assert_eq!(registry.name_at(2), Some(&"Invoice".to_string()));
    assert_eq!(registry.name_at(3), None);
}

#[test]
fn lookup_finds_a_type_by_its_tag_string() {
    let registry = NodeRegistry::new(names(&["Tenant", "User", "Invoice"]));
    assert_eq!(registry.lookup("1"), Some(&"Tenant".to_string()));
    assert_eq!(registry.lookup("2"), Some(&"User".to_string()));
    assert_eq!(registry.lookup("3"), Some(&"Invoice".to_string()));
    assert_eq!(registry.resolve("2"), Some((2, &"User".to_string())));
}

#[test]
fn lookup_never_finds_tag_zero() {
    let registry = NodeRegistry::new(names(&["Tenant", "User"]));
    assert_eq!(registry.lookup("0"), None);
    assert_eq!(registry.resolve("0"), None);
}

#[test]
fn lookup_rejects_tags_past_the_end() {
    let registry = NodeRegistry::new(names(&["Tenant", "User"]));
    assert_eq!(registry.lookup("3"), None);
    assert_eq!(registry.lookup("20"), None);
    assert_eq!(registry.lookup("18446744073709551616"), None);
}

#[test]
fn lookup_compares_strings_not_numbers() {
    let registry = NodeRegistry::new(names(&["Tenant", "User"]));
    for tag in ["02", "002", "+2", "2 ", " 2", "2.0", "2\n", "２", "0x2", "two", "", "-2", "2a"] {
        assert_eq!(registry.lookup(tag), None);
        assert_eq!(registry.resolve(tag), None);
    }
}

#[test]
fn lookup_in_an_empty_registry_finds_nothing() {
    let registry = NodeRegistry::new(Vec::new());
    assert_eq!(registry.len(), 0);
    assert_eq!(registry.lookup("1"), None);
    assert_eq!(registry.lookup(""), None);
}

#[test]
fn lookup_with_tags_of_two_digits() {
    let list: Vec<String> = (1..=12).map(|n| format!("Type{}", n)).collect();
    let registry = NodeRegistry::new(list);
    assert_eq!(registry.lookup("1"), Some(&"Type1".to_string()));
    assert_eq!(registry.lookup("10"), Some(&"Type10".to_string()));
    assert_eq!(registry.lookup("12"), Some(&"Type12".to_string()));
    assert_eq!(registry.lookup("13"), None);
    assert_eq!(registry.lookup("01"), None);
    assert_eq!(registry.resolve("11"), Some((11, &"Type11".to_string())));
}

#[test]
fn every_type_is_found_under_its_own_tag() {
    let list: Vec<String> = (0..150).map(|n| format!("T{}", n)).collect();
    let registry = NodeRegistry::new(list.clone());
    for (position, name) in list.iter().enumerate() {
        let tag = registry.tag_of(position).unwrap();
        assert_eq!(tag, position as u64 + 1);
        assert_eq!(registry.lookup(&tag.to_string()), Some(name));
        assert_eq!(registry.resolve(&tag.to_string()), Some((tag, name)));
    }
}

#[test]
fn appending_a_type_keeps_the_earlier_tags() {
    let before = NodeRegistry::new(names(&["Tenant", "User"]));
    let after = NodeRegistry::new(names(&["Tenant", "User", "Invoice"]));
    for tag in ["1", "2"] {
        assert_eq!(before.lookup(tag), after.lookup(tag));
    }
    assert_eq!(before.lookup("3"), None);
    assert_eq!(after.lookup("3"), Some(&"Invoice".to_string()));
}

#[test]
fn equal_names_keep_their_own_tags() {
    let registry = NodeRegistry::new(names(&["User", "User"]));
    assert_eq!(registry.resolve("1"), Some((1, &"User".to_string())));
    assert_eq!(registry.resolve("2"), Some((2, &"User".to_string())));
    assert_eq!(registry.resolve("3"), None);
}
