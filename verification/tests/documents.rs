use rustberg::json::Json;

#[test]
fn parse_reads_an_object_and_its_integers() {
    let doc = Json::parse(r#"{"a": 1, "b": [true, null, "x"], "c": 1.5}"#).unwrap();
    assert_eq!(doc.get("a").unwrap().as_long("a").unwrap(), 1);
    assert!(doc.get("c").unwrap().as_long("c").is_err());
    assert!(doc.get("d").is_none());
    assert_eq!(doc.to_text(), r#"{"a":1,"b":[true,null,"x"],"c":1.5}"#);
}

#[test]
fn parse_refuses_what_is_no_document() {
    assert!(Json::parse("{").is_err());
    assert!(Json::parse("").is_err());
    assert!(Json::parse("[1,]").is_err());
    assert!(Json::parse("{\"a\": 1} x").is_err());
}

#[test]
fn parse_keeps_every_kind_of_node() {
    let doc = Json::parse(r#"[null, false, -7, "s", [], {}]"#).unwrap();
    match doc {
        Json::Array(items) => {
            assert_eq!(items.len(), 6);
            assert_eq!(items[0], Json::Null);
            assert_eq!(items[1], Json::Bool(false));
            assert_eq!(items[2], Json::long(-7));
            assert_eq!(items[3], Json::text("s"));
            assert_eq!(items[4], Json::Array(vec![]));
            assert_eq!(items[5], Json::Object(vec![]));
        }
        other => panic!("no array: {:?}", other),
    }
}

#[test]
fn integers_are_read_up_to_the_ends_of_64_bits() {
    let doc = Json::parse("[9223372036854775807, -9223372036854775808, 9223372036854775808]")
        .unwrap();
    match doc {
        Json::Array(items) => {
            assert_eq!(items[0].as_long("").unwrap(), i64::MAX);
            assert_eq!(items[1].as_long("").unwrap(), i64::MIN);
            assert!(items[2].as_long("").is_err());
            assert!(items[0].as_int("").is_err());
        }
        other => panic!("no array: {:?}", other),
    }
}

#[test]
fn the_later_of_two_entries_with_one_key_is_found() {
    let doc = Json::Object(vec![
        ("a".to_string(), Json::long(1)),
        ("b".to_string(), Json::long(2)),
        ("a".to_string(), Json::long(3)),
    ]);
    assert_eq!(doc.get("a"), Some(&Json::long(3)));
    assert_eq!(doc.get("b"), Some(&Json::long(2)));
    assert_eq!(doc.get("c"), None);
    assert_eq!(Json::long(1).get("a"), None);
}

#[test]
fn a_key_with_null_is_not_present_but_is_there() {
    let doc = Json::parse(r#"{"a": null}"#).unwrap();
    assert_eq!(doc.get("a"), Some(&Json::Null));
    assert_eq!(doc.present("a"), None);
    assert!(doc.required("a").is_ok());
    assert!(doc.required("b").is_err());
    assert_eq!(doc.long_opt("a").unwrap(), None);
    assert_eq!(doc.long_opt("b").unwrap(), None);
}

#[test]
fn text_is_written_with_its_escapes_and_read_back() {
    let doc = Json::Object(vec![("k\"".to_string(), Json::text("a\nb\\"))]);
    let text = doc.to_text();
    assert_eq!(text, "{\"k\\\"\":\"a\\nb\\\\\"}");
    assert_eq!(Json::parse(&text).unwrap(), doc);
}

#[test]
fn a_tree_goes_to_the_outside_form_and_back() {
    let doc = Json::parse(r#"{"z": [1, {"y": 2.5}], "a": "x"}"#).unwrap();
    let value = doc.to_value();
    assert_eq!(value["z"][0], serde_json::Value::from(1));
    assert_eq!(value["a"], serde_json::Value::from("x"));
    assert_eq!(Json::from_value(&value), doc);
}
