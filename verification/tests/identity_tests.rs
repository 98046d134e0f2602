use mijia_bridge::identity::{device_base, node_id_for, node_identity, parse_name_line, NameMap};

#[test]
fn node_id_strips_separators() {
    assert_eq!(node_id_for("4C:65:A8:AA:BB:CC"), "4C65A8AABBCC");
}

#[test]
fn node_id_of_empty_address_is_empty() {
    assert_eq!(node_id_for(""), "");
}

#[test]
fn node_id_without_separators_is_unchanged() {
    assert_eq!(node_id_for("ABCDEF"), "ABCDEF");
}

#[test]
fn known_address_gets_configured_name() {
    let mut names = NameMap::empty();
    names.add("4C:65:A8:AA:BB:CC".to_string(), "Kitchen".to_string());
    let addr = "4C:65:A8:AA:BB:CC".to_string();
    let (node_id, display_name) = node_identity(&addr, &names);
    assert_eq!(node_id, "4C65A8AABBCC");
    assert_eq!(display_name, "Kitchen");
}

#[test]
fn unknown_address_displays_as_itself() {
    let mut names = NameMap::empty();
    names.add("4C:65:A8:AA:BB:CC".to_string(), "Kitchen".to_string());
    let addr = "4C:65:A8:11:22:33".to_string();
    let (node_id, display_name) = node_identity(&addr, &names);
    assert_eq!(node_id, "4C65A8112233");
    assert_eq!(display_name, "4C:65:A8:11:22:33");
}

#[test]
fn lookup_finds_earliest_entry() {
    let mut names = NameMap::empty();
    names.add("AA:BB".to_string(), "First".to_string());
    names.add("AA:BB".to_string(), "Second".to_string());
    let key = "AA:BB".to_string();
    assert_eq!(names.lookup(&key), Some("First".to_string()));
    assert!(names.contains_key(&key));
    let missing = "CC:DD".to_string();
    assert_eq!(names.lookup(&missing), None);
    assert!(!names.contains_key(&missing));
}

#[test]
fn node_ids_of_distinct_addresses_differ() {
    let a = "4C:65:A8:AA:BB:CC";
    let b = "4C:65:A8:AA:BB:CD";
    assert_ne!(node_id_for(a), node_id_for(b));
}

#[test]
fn node_id_is_stable_across_calls() {
    let addr = "4C:65:A8:AA:BB:CC";
    assert_eq!(node_id_for(addr), node_id_for(addr));
}

#[test]
fn device_base_joins_prefix_and_device_id() {
    assert_eq!(device_base("homie", "mijia-bridge"), "homie/mijia-bridge");
}

#[test]
fn name_line_splits_at_first_separator() {
    assert_eq!(
        parse_name_line("4C:65:A8:AA:BB:CC = Kitchen"),
        Some(("4C:65:A8:AA:BB:CC".to_string(), "Kitchen".to_string()))
    );
    assert_eq!(parse_name_line("a=b=c"), Some(("a".to_string(), "b=c".to_string())));
}

#[test]
fn name_line_trims_surrounding_spaces_only() {
    assert_eq!(
        parse_name_line("  AA:BB  =  name with spaces  "),
        Some(("AA:BB".to_string(), "name with spaces".to_string()))
    );
}

#[test]
fn name_line_without_separator_maps_to_nothing() {
    assert_eq!(parse_name_line("no separator here"), None);
    assert_eq!(parse_name_line(""), None);
}

#[test]
fn name_line_with_bare_separator_gives_empty_parts() {
    assert_eq!(parse_name_line("="), Some((String::new(), String::new())));
}
