use genart::params::{
    BooleanInput, DataInfo, IntegerInput, JsonValue, OptionsInput, RawDimensions, ResolvedValue,
    StringInput,
};

fn options_lch_hsv() -> OptionsInput {
    OptionsInput {
        options: vec![String::from("lch"), String::from("hsv")],
        default: String::from("lch"),
    }
}

#[test]
fn integer_in_range_is_kept() {
    let input = IntegerInput::new(0, 20, 15);
    assert_eq!(input.parse_json(&JsonValue::Integer(0)), 0);
    assert_eq!(input.parse_json(&JsonValue::Integer(7)), 7);
    assert_eq!(input.parse_json(&JsonValue::Integer(20)), 20);
}

#[test]
fn integer_out_of_range_gives_default() {
    let input = IntegerInput::new(0, 20, 15);
    assert_eq!(input.parse_json(&JsonValue::Integer(-1)), 15);
    assert_eq!(input.parse_json(&JsonValue::Integer(21)), 15);
    assert_eq!(input.parse_json(&JsonValue::Integer(i64::MAX)), 15);
}

#[test]
fn integer_malformed_gives_default() {
    let input = IntegerInput::new(3, 30, 5);
    assert_eq!(input.parse_json(&JsonValue::OtherNumber), 5);
    assert_eq!(input.parse_json(&JsonValue::Text(String::from("10"))), 5);
    assert_eq!(input.parse_json(&JsonValue::Bool(true)), 5);
    assert_eq!(input.parse_json(&JsonValue::Null), 5);
    assert_eq!(input.parse_json(&JsonValue::Array), 5);
    assert_eq!(input.parse_json(&JsonValue::Object), 5);
}

#[test]
fn options_scenario() {
    let input = options_lch_hsv();
    assert_eq!(input.parse_json(&JsonValue::Text(String::from("hsv"))), "hsv");
    assert_eq!(input.parse_json(&JsonValue::Text(String::from("rgb"))), "lch");
    assert_eq!(input.parse_json(&JsonValue::Integer(42)), "lch");
    let raw = RawDimensions::new();
    assert_eq!(input.from_dimensions("paletteType", &raw), "lch");
}

#[test]
fn boolean_scenario() {
    let input = BooleanInput { default: false };
    assert!(input.parse_json(&JsonValue::Bool(true)));
    assert!(!input.parse_json(&JsonValue::Bool(false)));
    assert!(!input.parse_json(&JsonValue::Text(String::from("x"))));
    let on = BooleanInput { default: true };
    assert!(!on.parse_json(&JsonValue::Bool(false)));
    assert!(on.parse_json(&JsonValue::Null));
}

#[test]
fn string_input_takes_strings_only() {
    let input = StringInput { default: String::from("none") };
    assert_eq!(input.parse_json(&JsonValue::Text(String::from("abc"))), "abc");
    assert_eq!(input.parse_json(&JsonValue::Integer(3)), "none");
    assert_eq!(input.get_default(), "none");
}

#[test]
fn schema_tags() {
    assert_eq!(BooleanInput { default: true }.name(), "boolean");
    assert_eq!(BooleanInput { default: true }.json_type(), "boolean");
    assert_eq!(IntegerInput::new(0, 1, 0).name(), "integer");
    assert_eq!(IntegerInput::new(0, 1, 0).json_type(), "number");
    assert_eq!(StringInput { default: String::new() }.name(), "string");
    assert_eq!(StringInput { default: String::new() }.json_type(), "string");
    assert_eq!(options_lch_hsv().name(), "options");
    assert_eq!(options_lch_hsv().json_type(), "string");
    let info = DataInfo::Options(options_lch_hsv());
    assert_eq!(info.name(), "options");
    assert_eq!(info.json_type(), "string");
}

#[test]
fn lookup_takes_the_named_value() {
    let mut raw = RawDimensions::new();
    raw.insert(String::from("numColors"), JsonValue::Integer(12));
    raw.insert(String::from("other"), JsonValue::Integer(2));
    raw.insert(String::from("numColors"), JsonValue::Integer(13));
    let input = IntegerInput::new(3, 30, 5);
    assert_eq!(input.from_dimensions("numColors", &raw), 13);
    assert_eq!(raw.entries.len(), 2);
    assert_eq!(input.from_dimensions("other", &raw), 5);
    assert_eq!(input.from_dimensions("missing", &raw), 5);
    assert!(raw.get("missing").is_none());
}

#[test]
fn resolve_absent_gives_default() {
    let info = DataInfo::Integer(IntegerInput::new(0, 20, 15));
    match info.resolve(None) {
        ResolvedValue::Integer(v) => assert_eq!(v, 15),
        _ => panic!("wrong kind"),
    }
    let info = DataInfo::Text(StringInput { default: String::from("d") });
    match info.resolve(Some(&JsonValue::Text(String::from("given")))) {
        ResolvedValue::Text(v) => assert_eq!(v, "given"),
        _ => panic!("wrong kind"),
    }
}
