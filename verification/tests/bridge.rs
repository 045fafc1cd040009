use oscbridge::bridge::{handle_command, handle_osc_message, CommandAction};
use oscbridge::registry::EntityRegistry;
use oscbridge::value::{BridgeError, OscArg};

#[test]
fn bridge_first_sight_announces_then_stays_quiet() {
    let mut reg = EntityRegistry::new();

    let plan = handle_osc_message(&mut reg, "/p/x", OscArg::Bool(true)).unwrap();
    let d = plan.discovery.expect("first sight must announce the entity");
    assert_eq!(d.topic, "homeassistant/switch/Oscx/config");
    assert_eq!(d.qos, 1);
    assert!(d.payload.contains("\"name\":\"Oscx\""));
    assert_eq!(plan.state.topic, "homeassistant/switch/Oscx/state");
    assert_eq!(plan.state.payload, "ON");
    assert_eq!(plan.state.qos, 0);

    let plan2 = handle_osc_message(&mut reg, "/p/x", OscArg::Bool(false)).unwrap();
    assert!(plan2.discovery.is_none());
    assert_eq!(plan2.state.topic, "homeassistant/switch/Oscx/state");
    assert_eq!(plan2.state.payload, "OFF");
}

#[test]
fn bridge_command_is_clamped_and_echoed() {
    let mut reg = EntityRegistry::new();
    handle_osc_message(&mut reg, "/p/y", OscArg::Int(5)).unwrap();

    let plan = handle_command(&reg, "homeassistant/number/Oscy/set", "127".to_string())
        .unwrap()
        .expect("registered command topic must match");
    assert_eq!(plan.address, "/p/y");
    assert_eq!(plan.state_topic, "homeassistant/number/Oscy/state");
    match plan.action {
        CommandAction::SendInt { value, state_payload } => {
            assert_eq!(value, 127);
            assert_eq!(state_payload, "127");
        }
        _ => panic!("an integer payload must be sent as an integer"),
    }

    let high = handle_command(&reg, "homeassistant/number/Oscy/set", "300".to_string())
        .unwrap()
        .unwrap();
    match high.action {
        CommandAction::SendInt { value, state_payload } => {
            assert_eq!(value, 255);
            assert_eq!(state_payload, "255");
        }
        _ => panic!("an integer payload must be sent as an integer"),
    }

    let low = handle_command(&reg, "homeassistant/number/Oscy/set", "-3".to_string())
        .unwrap()
        .unwrap();
    match low.action {
        CommandAction::SendInt { value, state_payload } => {
            assert_eq!(value, 0);
            assert_eq!(state_payload, "0");
        }
        _ => panic!("an integer payload must be sent as an integer"),
    }
}

#[test]
fn bridge_unmatched_command_topic_is_discarded() {
    let mut reg = EntityRegistry::new();
    handle_osc_message(&mut reg, "/p/x", OscArg::Bool(true)).unwrap();
    let r = handle_command(&reg, "homeassistant/number/Other/set", "127".to_string()).unwrap();
    assert!(r.is_none());
    let r = handle_command(&reg, "homeassistant/switch/Oscx/state", "ON".to_string()).unwrap();
    assert!(r.is_none());
}

#[test]
fn bridge_matched_command_with_bad_payload_is_a_parse_error() {
    let mut reg = EntityRegistry::new();
    handle_osc_message(&mut reg, "/p/x", OscArg::Bool(true)).unwrap();
    let r = handle_command(&reg, "homeassistant/switch/Oscx/set", "garbage".to_string());
    match r {
        Err(e) => assert_eq!(e, BridgeError::ParseError),
        Ok(_) => panic!("an undecodable payload on a matched topic must be a parse error"),
    }
}

#[test]
fn bridge_unsupported_argument_is_rejected_without_effect() {
    let mut reg = EntityRegistry::new();
    let r = handle_osc_message(&mut reg, "/p/x", OscArg::Unsupported);
    match r {
        Err(e) => assert_eq!(e, BridgeError::UnsupportedValueKind),
        Ok(_) => panic!("an unsupported argument must be rejected"),
    }

    let plan = handle_osc_message(&mut reg, "/p/x", OscArg::Bool(true)).unwrap();
    assert!(plan.discovery.is_some());
}

#[test]
fn bridge_float_values_travel_as_text() {
    let mut reg = EntityRegistry::new();
    let plan = handle_osc_message(&mut reg, "/p/z", OscArg::Float("0.5".to_string())).unwrap();
    let d = plan.discovery.expect("first sight must announce the entity");
    assert_eq!(d.topic, "homeassistant/number/Oscz/config");
    assert_eq!(plan.state.payload, "0.5");

    let cmd = handle_command(&reg, "homeassistant/number/Oscz/set", "0.75".to_string())
        .unwrap()
        .unwrap();
    match cmd.action {
        CommandAction::SendFloat { text } => assert_eq!(text, "0.75"),
        _ => panic!("a fractional payload must be sent as a float"),
    }

    let on = handle_command(&reg, "homeassistant/number/Oscz/set", "ON".to_string())
        .unwrap()
        .unwrap();
    match on.action {
        CommandAction::SendBool { value, state_payload } => {
            assert!(value);
            assert_eq!(state_payload, "ON");
        }
        _ => panic!("ON must be sent as a boolean"),
    }
}
