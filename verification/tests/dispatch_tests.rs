use mijia_bridge::events::{dispatch_event, node_properties, property_id, Action, PropertyDatatype, PropertyKind, RawEvent};
use mijia_bridge::identity::NameMap;
use mijia_bridge::manager::{ConnectionManager, SensorInfo};

const SUFFIX: &str = "/service0021/char0035";

fn sensor(path: &str, mac: &str) -> SensorInfo {
    SensorInfo { object_path: path.to_string(), mac_address: mac.to_string() }
}

fn manager_with_connected_sensor() -> ConnectionManager {
    let mut m = ConnectionManager::new(vec![sensor("/dev1", "4C:65:A8:AA:BB:CC")]);
    m.begin_attempt().unwrap();
    m.finish_attempt(true);
    m
}

#[test]
fn valid_payload_publishes_three_values_in_order() {
    let mut m = manager_with_connected_sensor();
    let names = NameMap::empty();
    let event = RawEvent::Value {
        object_path: format!("/dev1{}", SUFFIX),
        payload: vec![1, 2, 3, 4, 10],
    };
    let actions = dispatch_event(&mut m, &names, SUFFIX, &event);
    assert_eq!(
        actions,
        vec![
            Action::Publish {
                node_id: "4C65A8AABBCC".to_string(),
                property: PropertyKind::Temperature,
                value: "5.13".to_string(),
            },
            Action::Publish {
                node_id: "4C65A8AABBCC".to_string(),
                property: PropertyKind::Humidity,
                value: "3".to_string(),
            },
            Action::Publish {
                node_id: "4C65A8AABBCC".to_string(),
                property: PropertyKind::Battery,
                value: "46".to_string(),
            },
        ]
    );
}

#[test]
fn undecodable_payload_logs_once_and_publishes_nothing() {
    let mut m = manager_with_connected_sensor();
    let names = NameMap::empty();
    let event = RawEvent::Value {
        object_path: format!("/dev1{}", SUFFIX),
        payload: vec![1, 2, 3],
    };
    let actions = dispatch_event(&mut m, &names, SUFFIX, &event);
    assert_eq!(actions, vec![Action::LogInvalidValue { object_path: "/dev1".to_string() }]);
}

#[test]
fn path_without_value_suffix_is_discarded() {
    let mut m = manager_with_connected_sensor();
    let names = NameMap::empty();
    let event = RawEvent::Value {
        object_path: "/dev1/service0021/char9999".to_string(),
        payload: vec![1, 2, 3, 4, 10],
    };
    let actions = dispatch_event(&mut m, &names, SUFFIX, &event);
    assert!(actions.is_empty());
}

#[test]
fn value_from_untracked_device_is_discarded() {
    let mut m = manager_with_connected_sensor();
    let names = NameMap::empty();
    let event = RawEvent::Value {
        object_path: format!("/ghost{}", SUFFIX),
        payload: vec![1, 2, 3, 4, 10],
    };
    let actions = dispatch_event(&mut m, &names, SUFFIX, &event);
    assert!(actions.is_empty());
}

#[test]
fn disconnect_event_deregisters_and_requeues() {
    let mut m = manager_with_connected_sensor();
    let mut names = NameMap::empty();
    names.add("4C:65:A8:AA:BB:CC".to_string(), "Kitchen".to_string());
    let event = RawEvent::ConnectionStateChange {
        object_path: "/dev1".to_string(),
        connected: false,
    };
    let actions = dispatch_event(&mut m, &names, SUFFIX, &event);
    assert_eq!(
        actions,
        vec![Action::RemoveNode {
            node_id: "4C65A8AABBCC".to_string(),
            display_name: "Kitchen".to_string(),
        }]
    );
    assert!(m.connected.is_empty());
    assert_eq!(m.pending.len(), 1);
    assert_eq!(m.pending[0].object_path, "/dev1");
}

#[test]
fn disconnect_for_untracked_identity_is_logged_and_ignored() {
    let mut m = manager_with_connected_sensor();
    let names = NameMap::empty();
    let event = RawEvent::ConnectionStateChange {
        object_path: "/ghost".to_string(),
        connected: false,
    };
    let actions = dispatch_event(&mut m, &names, SUFFIX, &event);
    assert_eq!(
        actions,
        vec![Action::LogUnknownDisconnect { object_path: "/ghost".to_string() }]
    );
    assert_eq!(m.connected.len(), 1);
    assert!(m.pending.is_empty());
}

#[test]
fn reconnection_report_needs_no_action() {
    let mut m = manager_with_connected_sensor();
    let names = NameMap::empty();
    let event = RawEvent::ConnectionStateChange {
        object_path: "/dev1".to_string(),
        connected: true,
    };
    let actions = dispatch_event(&mut m, &names, SUFFIX, &event);
    assert!(actions.is_empty());
    assert_eq!(m.connected.len(), 1);
}

#[test]
fn other_notifications_are_dropped() {
    let mut m = manager_with_connected_sensor();
    let names = NameMap::empty();
    let actions = dispatch_event(&mut m, &names, SUFFIX, &RawEvent::Other);
    assert!(actions.is_empty());
    assert_eq!(m.connected.len(), 1);
}

#[test]
fn property_ids_name_the_registry_path_segments() {
    assert_eq!(property_id(PropertyKind::Temperature), "temperature");
    assert_eq!(property_id(PropertyKind::Humidity), "humidity");
    assert_eq!(property_id(PropertyKind::Battery), "battery");
}

#[test]
fn node_registration_model_has_three_fixed_properties() {
    let props = node_properties();
    assert_eq!(props.len(), 3);
    assert_eq!(props[0].id, "temperature");
    assert_eq!(props[0].display_name, "Temperature");
    assert_eq!(props[0].datatype, PropertyDatatype::Float);
    assert_eq!(props[0].unit, "\u{ba}C");
    assert_eq!(props[1].id, "humidity");
    assert_eq!(props[1].datatype, PropertyDatatype::Integer);
    assert_eq!(props[1].unit, "%");
    assert_eq!(props[2].id, "battery");
    assert_eq!(props[2].display_name, "Battery level");
    assert_eq!(props[2].datatype, PropertyDatatype::Integer);
    assert_eq!(props[2].unit, "%");
}
