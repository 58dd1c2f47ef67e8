use usb2snes_splits::{
    comparison_of, config_from_json, parse, string_to_u32, ComparisonTypes, InGameTime, JsonValue,
    ParseError, PathPart, SplitDefinition,
};

fn text(s: &str) -> JsonValue {
    JsonValue::Text(s.to_string())
}

fn entry(key: &str, v: JsonValue) -> (String, JsonValue) {
    (key.to_string(), v)
}

#[test]
fn new_split_definition() {
    let split = SplitDefinition::new(
        "Test".to_string(),
        None,
        "0x6969".to_string(),
        "2".to_string(),
        ComparisonTypes::Eq,
        None,
        None,
    );

    assert_eq!(&split.address, "0x6969")
}

#[test]
fn string_to_u32_validation() {
    let address = "0x6969".to_string();
    let num = string_to_u32(address.trim_start_matches("0x")).unwrap();
    assert_eq!(num, 0x6969);
}

#[test]
fn string_to_u32_rejects_empty() {
    assert_eq!(
        string_to_u32(""),
        Err(ParseError::InvalidAddress("".to_string()))
    );
}

#[test]
fn string_to_u32_rejects_non_hex() {
    assert_eq!(
        string_to_u32("zz"),
        Err(ParseError::InvalidAddress("zz".to_string()))
    );
}

#[test]
fn string_to_u32_full_range() {
    assert_eq!(string_to_u32("FFFFFFFF").unwrap(), 4294967295);
}

#[test]
fn string_to_u32_rejects_past_range() {
    assert_eq!(
        string_to_u32("100000000"),
        Err(ParseError::InvalidAddress("100000000".to_string()))
    );
}

#[test]
fn string_to_u32_mixed_case_digits() {
    assert_eq!(string_to_u32("aB3").unwrap(), 0xab3);
}

#[test]
fn string_to_u32_rejects_sign_and_prefix() {
    assert!(string_to_u32("+1a").is_err());
    assert!(string_to_u32("0x1a").is_err());
}

#[test]
fn new_in_game_time() {
    let igt = InGameTime::new(
        "1".to_string(),
        "0xa".to_string(),
        "0xb".to_string(),
        "0xc".to_string(),
        "0xd".to_string(),
    );
    assert_eq!(&igt.active, "1");
    assert_eq!(&igt.frames_address, "0xa");
    assert_eq!(&igt.hours_address, "0xd");
    assert!(igt.is_active());
}

#[test]
fn comparison_of_decides_the_closed_set() {
    assert_eq!(comparison_of("wlt"), Some(ComparisonTypes::Wlt));
    assert_eq!(comparison_of("bit"), Some(ComparisonTypes::Bit));
    assert_eq!(comparison_of("unknown"), None);
    assert_eq!(comparison_of("EQ"), None);
}

fn autostart_with_flag(flag: &str) -> usb2snes_splits::Autostart {
    let doc = format!(
        r#"{{"autostart":{{"active":"{}","address":"0x10","value":"1","type":"eq"}},"definitions":[]}}"#,
        flag
    );
    parse(&doc).unwrap().autostart.unwrap()
}

#[test]
fn autostart_active_on_literal_one() {
    assert!(autostart_with_flag("1").is_active());
}

#[test]
fn autostart_inactive_on_zero() {
    assert!(!autostart_with_flag("0").is_active());
}

#[test]
fn autostart_inactive_on_empty_flag() {
    assert!(!autostart_with_flag("").is_active());
}

#[test]
fn autostart_inactive_on_true_word() {
    assert!(!autostart_with_flag("true").is_active());
}

#[test]
fn autostart_inactive_on_padded_one() {
    assert!(!autostart_with_flag("01").is_active());
}

fn igt_doc(flag: &str) -> String {
    format!(
        r#"{{"igt":{{"active":"{}","framesAddress":"0x1","secondsAddress":"0x2","minutesAddress":"0x3","hoursAddress":"0x4"}},"definitions":[]}}"#,
        flag
    )
}

#[test]
fn igt_is_set_and_active() {
    let conf = parse(&igt_doc("1")).unwrap();
    let igt = conf.igt.unwrap();
    assert_eq!(&igt.frames_address, "0x1");
    assert_eq!(&igt.seconds_address, "0x2");
    assert_eq!(&igt.minutes_address, "0x3");
    assert_eq!(&igt.hours_address, "0x4");
    assert!(igt.is_active());
}

#[test]
fn igt_inactive_flag() {
    let conf = parse(&igt_doc("0")).unwrap();
    assert!(!conf.igt.unwrap().is_active());
}

#[test]
fn igt_absent_is_not_an_error() {
    let conf = parse(r#"{"definitions":[]}"#).unwrap();
    assert!(conf.igt.is_none());
}

#[test]
fn alias_absent_defaults_to_empty() {
    let conf = parse(r#"{"definitions":[]}"#).unwrap();
    assert!(conf.alias.is_empty());
    assert!(conf.name.is_none());
    assert!(conf.autostart.is_none());
}

#[test]
fn alias_entries_carried_over() {
    let conf = parse(r#"{"alias":{"boss":"0x1234","count":3},"definitions":[]}"#).unwrap();
    assert_eq!(conf.alias.len(), 2);
    assert_eq!(conf.alias[0], ("boss".to_string(), text("0x1234")));
    assert_eq!(
        conf.alias[1],
        ("count".to_string(), JsonValue::Number("3".to_string()))
    );
}

#[test]
fn end_to_end_single_definition() {
    let conf = parse(r#"{"definitions":[{"address":"0x10","value":"5","type":"eq"}]}"#).unwrap();
    assert!(conf.name.is_none());
    assert!(conf.autostart.is_none());
    assert!(conf.igt.is_none());
    assert!(conf.alias.is_empty());
    assert_eq!(conf.definitions.len(), 1);
    let split = &conf.definitions[0];
    assert_eq!(&split.address, "0x10");
    assert_eq!(&split.value, "5");
    assert_eq!(split.kind, ComparisonTypes::Eq);
    assert!(split.name.is_none());
    assert!(split.note.is_none());
    assert!(split.next.is_none());
    assert!(split.more.is_none());
}

#[test]
fn unknown_comparison_tag_is_rejected() {
    let err = parse(r#"{"definitions":[{"address":"a","value":"1","type":"unknown"}]}"#)
        .unwrap_err();
    assert_eq!(
        err,
        ParseError::UnrecognizedComparisonType(
            vec![
                PathPart::Key("definitions".to_string()),
                PathPart::At(0),
                PathPart::Key("type".to_string()),
            ],
            "unknown".to_string()
        )
    );
}

#[test]
fn wrong_case_comparison_tag_is_rejected() {
    let err =
        parse(r#"{"definitions":[{"address":"a","value":"1","type":"Eq"}]}"#).unwrap_err();
    assert!(matches!(
        err,
        ParseError::UnrecognizedComparisonType(_, tag) if tag == "Eq"
    ));
}

#[test]
fn all_twelve_tags_parse() {
    let tags = [
        ("bit", ComparisonTypes::Bit),
        ("eq", ComparisonTypes::Eq),
        ("gte", ComparisonTypes::Gte),
        ("gt", ComparisonTypes::Gt),
        ("lte", ComparisonTypes::Lte),
        ("lt", ComparisonTypes::Lt),
        ("wbit", ComparisonTypes::Wbit),
        ("weq", ComparisonTypes::Weq),
        ("wgt", ComparisonTypes::Wgt),
        ("wgte", ComparisonTypes::Wgte),
        ("wlte", ComparisonTypes::Wlte),
        ("wlt", ComparisonTypes::Wlt),
    ];
    for (tag, expected) in tags {
        let doc = format!(
            r#"{{"definitions":[{{"address":"a","value":"1","type":"{}"}}]}}"#,
            tag
        );
        let conf = parse(&doc).unwrap();
        assert_eq!(conf.definitions[0].kind, expected);
    }
}

#[test]
fn missing_address_is_located() {
    let err = parse(r#"{"definitions":[{"value":"1","type":"eq"}]}"#).unwrap_err();
    assert_eq!(
        err,
        ParseError::MissingField(
            vec![PathPart::Key("definitions".to_string()), PathPart::At(0)],
            "address".to_string()
        )
    );
}

#[test]
fn missing_definitions_is_reported() {
    let err = parse(r#"{"name":"x"}"#).unwrap_err();
    assert_eq!(
        err,
        ParseError::MissingField(vec![], "definitions".to_string())
    );
}

#[test]
fn non_string_address_is_a_type_mismatch() {
    let err = parse(r#"{"definitions":[{"address":5,"value":"1","type":"eq"}]}"#).unwrap_err();
    assert_eq!(
        err,
        ParseError::TypeMismatch(vec![
            PathPart::Key("definitions".to_string()),
            PathPart::At(0),
            PathPart::Key("address".to_string()),
        ])
    );
}

#[test]
fn non_object_root_is_a_type_mismatch() {
    let err = parse(r#"[1,2]"#).unwrap_err();
    assert_eq!(err, ParseError::TypeMismatch(vec![]));
}

#[test]
fn malformed_text_is_reported() {
    let err = parse("{").unwrap_err();
    assert!(matches!(err, ParseError::MalformedDocument(_)));
}

#[test]
fn nested_error_path_reaches_into_next() {
    let err = parse(
        r#"{"definitions":[{"address":"a","value":"1","type":"eq","next":[{"address":"b","value":"2","type":"nope"}]}]}"#,
    )
    .unwrap_err();
    assert_eq!(
        err,
        ParseError::UnrecognizedComparisonType(
            vec![
                PathPart::Key("definitions".to_string()),
                PathPart::At(0),
                PathPart::Key("next".to_string()),
                PathPart::At(0),
                PathPart::Key("type".to_string()),
            ],
            "nope".to_string()
        )
    );
}

#[test]
fn nested_tree_keeps_counts_and_order() {
    let conf = parse(
        r#"{"definitions":[
            {"name":"first","address":"0x1","value":"1","type":"eq",
             "next":[{"address":"0x2","value":"2","type":"gt",
                      "more":[{"address":"0x3","value":"3","type":"lt"},
                              {"address":"0x4","value":"4","type":"bit"}]}]},
            {"name":"second","address":"0x5","value":"5","type":"wbit"}
        ]}"#,
    )
    .unwrap();
    assert_eq!(conf.definitions.len(), 2);
    assert_eq!(conf.definitions[0].name.as_deref(), Some("first"));
    assert_eq!(conf.definitions[1].name.as_deref(), Some("second"));
    let next = conf.definitions[0].next.as_ref().unwrap();
    assert_eq!(next.len(), 1);
    assert!(conf.definitions[0].more.is_none());
    let more = next[0].more.as_ref().unwrap();
    assert_eq!(more.len(), 2);
    assert_eq!(&more[0].address, "0x3");
    assert_eq!(&more[1].address, "0x4");
    assert_eq!(more[1].kind, ComparisonTypes::Bit);
}

#[test]
fn null_optional_fields_mean_absent() {
    let conf = parse(
        r#"{"name":null,"autostart":null,"igt":null,"definitions":[{"name":null,"address":"a","value":"1","type":"eq","next":null}]}"#,
    )
    .unwrap();
    assert!(conf.name.is_none());
    assert!(conf.autostart.is_none());
    assert!(conf.igt.is_none());
    assert!(conf.definitions[0].name.is_none());
    assert!(conf.definitions[0].next.is_none());
}

#[test]
fn null_alias_is_a_type_mismatch() {
    let err = parse(r#"{"alias":null,"definitions":[]}"#).unwrap_err();
    assert_eq!(
        err,
        ParseError::TypeMismatch(vec![PathPart::Key("alias".to_string())])
    );
}

#[test]
fn unknown_keys_are_ignored() {
    let conf = parse(
        r#"{"extra":true,"definitions":[{"address":"a","value":"1","type":"eq","color":null}]}"#,
    )
    .unwrap();
    assert_eq!(conf.definitions.len(), 1);
}

#[test]
fn config_from_built_document() {
    let doc = JsonValue::Object(vec![
        entry("name", text("game")),
        entry(
            "definitions",
            JsonValue::Array(vec![JsonValue::Object(vec![
                entry("address", text("0x77")),
                entry("value", text("9")),
                entry("type", text("wgte")),
            ])]),
        ),
    ]);
    let conf = config_from_json(&doc).unwrap();
    assert_eq!(conf.name.as_deref(), Some("game"));
    assert_eq!(conf.definitions.len(), 1);
    assert_eq!(&conf.definitions[0].address, "0x77");
    assert_eq!(conf.definitions[0].kind, ComparisonTypes::Wgte);
}

#[test]
fn autostart_strict_type_is_rejected_outside_the_set() {
    let err = parse(
        r#"{"autostart":{"active":"1","address":"0x10","value":"1","type":"sometimes"},"definitions":[]}"#,
    )
    .unwrap_err();
    assert_eq!(
        err,
        ParseError::UnrecognizedComparisonType(
            vec![
                PathPart::Key("autostart".to_string()),
                PathPart::Key("type".to_string()),
            ],
            "sometimes".to_string()
        )
    );
}

#[test]
fn igt_missing_field_is_located() {
    let err = parse(
        r#"{"igt":{"active":"1","framesAddress":"0x1","secondsAddress":"0x2","minutesAddress":"0x3"},"definitions":[]}"#,
    )
    .unwrap_err();
    assert_eq!(
        err,
        ParseError::MissingField(
            vec![PathPart::Key("igt".to_string())],
            "hoursAddress".to_string()
        )
    );
}

#[test]
fn document_fields_round_trip() {
    let conf = parse(
        r#"{"name":"Super Game","autostart":{"active":"1","address":"0xF00","value":"255","type":"gte"},"definitions":[]}"#,
    )
    .unwrap();
    assert_eq!(conf.name.as_deref(), Some("Super Game"));
    let auto = conf.autostart.unwrap();
    assert_eq!(&auto.active, "1");
    assert_eq!(&auto.address, "0xF00");
    assert_eq!(&auto.value, "255");
    assert_eq!(auto.kind, ComparisonTypes::Gte);
    assert!(auto.next.is_none());
    assert!(auto.more.is_none());
}
