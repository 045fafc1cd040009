use oscbridge::entity::{address_has_segment, HassEntity};
use oscbridge::value::ValueKind;

#[test]
fn entity_topic_derivation_for_boolean_sample() {
    let e = HassEntity::new("/avatar/parameters/isWristVisible", ValueKind::Bool);
    assert_eq!(e.hass_name, "OscisWristVisible");
    assert_eq!(e.sensor_type, "switch");
    assert_eq!(e.unique_id, "osc._avatar_parameters_isWristVisible");
    assert_eq!(e.hass_device_class.as_deref(), Some("switch"));
    assert_eq!(e.state_topic, "homeassistant/switch/OscisWristVisible/state");
    assert_eq!(e.command_topic, "homeassistant/switch/OscisWristVisible/set");
    assert!(e.hass_value_template.is_none());
    assert!(e.hass_command_template.is_none());
}

#[test]
fn entity_integer_sample_gets_number_templates() {
    let e = HassEntity::new("/p/level", ValueKind::Int);
    assert_eq!(e.sensor_type, "number");
    assert!(e.hass_device_class.is_none());
    assert_eq!(e.hass_value_template.as_deref(), Some("{{ value_json | float / 2.55 }}"));
    assert_eq!(e.hass_command_template.as_deref(), Some("{{ value | float * 2.55 }}"));
    assert_eq!(e.state_topic, "homeassistant/number/Osclevel/state");
}

#[test]
fn entity_float_sample_gets_unit_interval_templates() {
    let e = HassEntity::new("/p/gain", ValueKind::Float);
    assert_eq!(e.sensor_type, "number");
    assert!(e.hass_device_class.is_none());
    assert_eq!(
        e.hass_value_template.as_deref(),
        Some("{{ (value_json | float + 1) * 50 }}")
    );
    assert_eq!(e.hass_command_template.as_deref(), Some("{{ (value | float / 50) - 1 }}"));
}

#[test]
fn entity_derivation_is_deterministic() {
    let a = HassEntity::new("/avatar/parameters/isWristVisible", ValueKind::Float);
    let b = HassEntity::new("/avatar/parameters/isWristVisible", ValueKind::Float);
    assert_eq!(a.hass_name, b.hass_name);
    assert_eq!(a.unique_id, b.unique_id);
    assert_eq!(a.state_topic, b.state_topic);
    assert_eq!(a.command_topic, b.command_topic);
    assert_eq!(a.hass_value_template, b.hass_value_template);
    assert_eq!(a.hass_command_template, b.hass_command_template);
}

#[test]
fn entity_name_uses_last_nonempty_segment() {
    assert_eq!(HassEntity::new("/p/x/", ValueKind::Bool).hass_name, "Oscx");
    assert_eq!(HassEntity::new("/p/x///", ValueKind::Bool).hass_name, "Oscx");
    assert_eq!(HassEntity::new("x", ValueKind::Bool).hass_name, "Oscx");
    assert_eq!(HassEntity::new("x", ValueKind::Bool).unique_id, "osc.x");
    assert_eq!(HassEntity::new("/p/x/", ValueKind::Bool).unique_id, "osc._p_x_");
}

#[test]
fn entity_equality_goes_by_name() {
    let a = HassEntity::new("/a/x", ValueKind::Bool);
    let b = HassEntity::new("/b/x", ValueKind::Bool);
    let c = HassEntity::new("/a/y", ValueKind::Bool);
    assert!(a == b);
    assert!(a != c);
}

#[test]
fn entity_config_topic_matches_kind_and_name() {
    let e = HassEntity::new("/p/x", ValueKind::Bool);
    assert_eq!(e.config_topic(), "homeassistant/switch/Oscx/config");
    let n = HassEntity::new("/p/x", ValueKind::Int);
    assert_eq!(n.config_topic(), "homeassistant/number/Oscx/config");
}

#[test]
fn entity_address_needs_a_segment_character() {
    assert!(address_has_segment("/p/x"));
    assert!(address_has_segment("x"));
    assert!(!address_has_segment(""));
    assert!(!address_has_segment("/"));
    assert!(!address_has_segment("///"));
}
