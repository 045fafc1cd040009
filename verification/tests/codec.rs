use oscbridge::codec::{hass_arg_to_osc, int_to_dec_string, osc_arg_to_hass};
use oscbridge::value::{clamp_int, BridgeError, OscValue};

#[test]
fn codec_encode_booleans() {
    assert_eq!(osc_arg_to_hass(&OscValue::Bool(true)), "ON");
    assert_eq!(osc_arg_to_hass(&OscValue::Bool(false)), "OFF");
}

#[test]
fn codec_encode_integers() {
    assert_eq!(osc_arg_to_hass(&OscValue::Int(127)), "127");
    assert_eq!(osc_arg_to_hass(&OscValue::Int(0)), "0");
    assert_eq!(osc_arg_to_hass(&OscValue::Int(-5)), "-5");
    assert_eq!(osc_arg_to_hass(&OscValue::Int(i32::MIN)), "-2147483648");
    assert_eq!(osc_arg_to_hass(&OscValue::Int(i32::MAX)), "2147483647");
    assert_eq!(int_to_dec_string(1000), "1000");
}

#[test]
fn codec_encode_float_text_passes_through() {
    assert_eq!(osc_arg_to_hass(&OscValue::Float(String::from("0.5"))), "0.5");
    assert_eq!(osc_arg_to_hass(&OscValue::Float(String::from("-0.25"))), "-0.25");
}

#[test]
fn codec_decode_booleans() {
    assert!(matches!(hass_arg_to_osc("ON".to_string()), Ok(OscValue::Bool(true))));
    assert!(matches!(hass_arg_to_osc("OFF".to_string()), Ok(OscValue::Bool(false))));
}

#[test]
fn codec_decode_integers() {
    assert!(matches!(hass_arg_to_osc("127".to_string()), Ok(OscValue::Int(127))));
    assert!(matches!(hass_arg_to_osc("-42".to_string()), Ok(OscValue::Int(-42))));
    assert!(matches!(hass_arg_to_osc("007".to_string()), Ok(OscValue::Int(7))));
    assert!(matches!(hass_arg_to_osc("+8".to_string()), Ok(OscValue::Int(8))));
    assert!(matches!(hass_arg_to_osc("0".to_string()), Ok(OscValue::Int(0))));
    assert!(matches!(
        hass_arg_to_osc("-2147483648".to_string()),
        Ok(OscValue::Int(i32::MIN))
    ));
    assert!(matches!(
        hass_arg_to_osc("2147483647".to_string()),
        Ok(OscValue::Int(i32::MAX))
    ));
}

#[test]
fn codec_decode_overflowing_integer_text_is_a_float() {
    match hass_arg_to_osc("2147483648".to_string()) {
        Ok(OscValue::Float(t)) => assert_eq!(t, "2147483648"),
        _ => panic!("out-of-range integer text must fall back to a float"),
    }
    match hass_arg_to_osc("-2147483649".to_string()) {
        Ok(OscValue::Float(t)) => assert_eq!(t, "-2147483649"),
        _ => panic!("out-of-range integer text must fall back to a float"),
    }
}

#[test]
fn codec_decode_float_texts() {
    for text in [
        "3.14", "-0.5", "1e3", ".5", "5.", "1.5e-3", "+2.5E+7", "inf", "-inf", "Infinity", "NaN",
        "nan",
    ] {
        match hass_arg_to_osc(text.to_string()) {
            Ok(OscValue::Float(t)) => assert_eq!(t, text),
            _ => panic!("expected a float for {text:?}"),
        }
    }
}

#[test]
fn codec_decode_rejects_non_numbers() {
    for text in ["", "abc", "12a", "+", "-", ".", "1e", "--5", "ON ", "on", "0x10", "1.2.3"] {
        match hass_arg_to_osc(text.to_string()) {
            Err(BridgeError::ParseError) => {}
            _ => panic!("expected a parse error for {text:?}"),
        }
    }
}

#[test]
fn codec_round_trip() {
    assert!(matches!(
        hass_arg_to_osc(osc_arg_to_hass(&OscValue::Bool(true))),
        Ok(OscValue::Bool(true))
    ));
    assert!(matches!(
        hass_arg_to_osc(osc_arg_to_hass(&OscValue::Bool(false))),
        Ok(OscValue::Bool(false))
    ));
    for i in [0i32, 1, -1, 127, 255, 256, -300, i32::MIN, i32::MAX] {
        match hass_arg_to_osc(osc_arg_to_hass(&OscValue::Int(i))) {
            Ok(OscValue::Int(j)) => assert_eq!(i, j),
            _ => panic!("integer round trip failed for {i}"),
        }
    }
    match hass_arg_to_osc(osc_arg_to_hass(&OscValue::Float("0.5".to_string()))) {
        Ok(OscValue::Float(t)) => assert_eq!(t, "0.5"),
        _ => panic!("float round trip failed"),
    }
}

#[test]
fn codec_clamp_integers() {
    assert_eq!(clamp_int(300), 255);
    assert_eq!(clamp_int(-5), 0);
    assert_eq!(clamp_int(0), 0);
    assert_eq!(clamp_int(127), 127);
    assert_eq!(clamp_int(255), 255);
}

#[test]
fn codec_clamp_is_idempotent() {
    for i in [i32::MIN, -1, 0, 1, 127, 255, 256, i32::MAX] {
        let once = clamp_int(i);
        assert_eq!(clamp_int(once), once);
        if (0..=255).contains(&i) {
            assert_eq!(once, i);
        }
    }
}
