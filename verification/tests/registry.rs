use oscbridge::registry::EntityRegistry;
use oscbridge::value::ValueKind;

#[test]
fn registry_lookup_on_empty_registry() {
    let r = EntityRegistry::new();
    assert!(r.lookup("/p/x").is_none());
    assert!(!r.contains("/p/x"));
    assert!(r.find_by_command_topic("homeassistant/switch/Oscx/set").is_none());
}

#[test]
fn registry_registers_at_most_once() {
    let mut r = EntityRegistry::new();
    let (e1, fresh1) = r.get_or_register("/p/x", ValueKind::Bool);
    let (e2, fresh2) = r.get_or_register("/p/x", ValueKind::Bool);
    let (e3, fresh3) = r.get_or_register("/p/x", ValueKind::Bool);
    assert!(fresh1);
    assert!(!fresh2);
    assert!(!fresh3);
    assert!(e1 == e2);
    assert!(e2 == e3);
    assert_eq!(e1.hass_name, "Oscx");
    assert!(r.contains("/p/x"));
    let found = r.lookup("/p/x").expect("registered address must be found");
    assert!(found == e1);
}

#[test]
fn registry_keeps_the_first_kind() {
    let mut r = EntityRegistry::new();
    let (first, fresh1) = r.get_or_register("/p/x", ValueKind::Bool);
    let (second, fresh2) = r.get_or_register("/p/x", ValueKind::Int);
    assert!(fresh1);
    assert!(!fresh2);
    assert_eq!(first.sensor_type, "switch");
    assert_eq!(second.sensor_type, "switch");
    assert_eq!(second.command_topic, "homeassistant/switch/Oscx/set");
}

#[test]
fn registry_distinct_addresses_get_distinct_entities() {
    let mut r = EntityRegistry::new();
    let (_, fresh1) = r.get_or_register("/p/x", ValueKind::Bool);
    let (_, fresh2) = r.get_or_register("/p/y", ValueKind::Int);
    assert!(fresh1);
    assert!(fresh2);
    assert!(r.contains("/p/x"));
    assert!(r.contains("/p/y"));
    assert!(!r.contains("/p/z"));
}

#[test]
fn registry_reverse_lookup_by_command_topic() {
    let mut r = EntityRegistry::new();
    r.get_or_register("/p/x", ValueKind::Bool);
    r.get_or_register("/p/y", ValueKind::Int);
    let (addr, entity) = r
        .find_by_command_topic("homeassistant/number/Oscy/set")
        .expect("command topic must be matched");
    assert_eq!(addr, "/p/y");
    assert_eq!(entity.hass_name, "Oscy");
    assert_eq!(entity.state_topic, "homeassistant/number/Oscy/state");
    assert!(r.find_by_command_topic("homeassistant/number/Oscy/state").is_none());
    assert!(r.find_by_command_topic("homeassistant/number/Oscz/set").is_none());
}
