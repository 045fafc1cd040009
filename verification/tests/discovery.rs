use oscbridge::discovery::discovery_payload;
use oscbridge::entity::HassEntity;
use oscbridge::value::ValueKind;

#[test]
fn discovery_boolean_payload_exact() {
    let e = HassEntity::new("/p/x", ValueKind::Bool);
    let p = discovery_payload(&e);
    assert_eq!(
        p,
        "{\"name\":\"Oscx\",\"unique_id\":\"osc._p_x\",\"device_class\":\"switch\",\"state_topic\":\"homeassistant/switch/Oscx/state\",\"command_topic\":\"homeassistant/switch/Oscx/set\"}"
    );
}

#[test]
fn discovery_numeric_payload_exact() {
    let e = HassEntity::new("/p/n", ValueKind::Int);
    let p = discovery_payload(&e);
    assert_eq!(
        p,
        "{\"name\":\"Oscn\",\"unique_id\":\"osc._p_n\",\"state_topic\":\"homeassistant/number/Oscn/state\",\"command_topic\":\"homeassistant/number/Oscn/set\",\"value_template\":\"{{ value_json | float / 2.55 }}\",\"command_template\":\"{{ value | float * 2.55 }}\"}"
    );
}

#[test]
fn discovery_payload_is_valid_json() {
    let e = HassEntity::new("/avatar/parameters/isWristVisible", ValueKind::Bool);
    let p = discovery_payload(&e);
    let v: serde_json::Value = serde_json::from_str(&p).expect("discovery payload must be JSON");
    assert_eq!(v["name"], "OscisWristVisible");
    assert_eq!(v["unique_id"], "osc._avatar_parameters_isWristVisible");
    assert_eq!(v["device_class"], "switch");
    assert_eq!(v["state_topic"], "homeassistant/switch/OscisWristVisible/state");
    assert_eq!(v["command_topic"], "homeassistant/switch/OscisWristVisible/set");
    assert!(v.get("value_template").is_none());
    assert!(v.get("command_template").is_none());

    let n = HassEntity::new("/p/level", ValueKind::Float);
    let q = discovery_payload(&n);
    let w: serde_json::Value = serde_json::from_str(&q).expect("discovery payload must be JSON");
    assert_eq!(w["value_template"], "{{ (value_json | float + 1) * 50 }}");
    assert_eq!(w["command_template"], "{{ (value | float / 50) - 1 }}");
    assert!(w.get("device_class").is_none());
}

#[test]
fn discovery_payload_escapes_special_characters() {
    let e = HassEntity::new("/p/x\"y\\z", ValueKind::Bool);
    let p = discovery_payload(&e);
    let v: serde_json::Value = serde_json::from_str(&p).expect("escaped payload must be JSON");
    assert_eq!(v["name"], "Oscx\"y\\z");

    let c = HassEntity::new("/p/a\u{1}b", ValueKind::Bool);
    let q = discovery_payload(&c);
    assert!(q.contains("\\u0001"));
    let w: serde_json::Value = serde_json::from_str(&q).expect("escaped payload must be JSON");
    assert_eq!(w["name"], "Osca\u{1}b");
}
