use tcp_ws_bridge::json::{Json, JsonError};

fn json(text: &str) -> Json {
    Json::from_text(text).unwrap()
}

fn text(json: &Json) -> String {
    json.to_text().unwrap()
}

#[test]
fn every_kind_of_value_survives_reading_and_writing() {
    let source = r#"{"a":[1,-2,null,true,"x\n\"y\""],"b":{"c":false},"d":18446744073709551615,"e":-9223372036854775808}"#;
    assert_eq!(text(&json(source)), source);
    let bytes = json(source).to_bytes().unwrap();
    assert_eq!(bytes, source.as_bytes().to_vec());
    assert_eq!(text(&Json::from_bytes(&bytes).unwrap()), source);
}

#[test]
fn fractions_are_carried_through() {
    assert_eq!(text(&json("[1.5,-0.25]")), "[1.5,-0.25]");
}

#[test]
fn members_are_written_in_the_order_of_their_names() {
    assert_eq!(text(&json(r#"{"b":1,"a":2}"#)), r#"{"a":2,"b":1}"#);
}

#[test]
fn of_members_with_one_name_the_last_counts() {
    let twice = json(r#"{"a":1,"a":2}"#);
    assert_eq!(text(&twice), r#"{"a":2}"#);
    let by_hand = Json::Object(vec![
        ("a".to_string(), Json::Bool(false)),
        ("b".to_string(), Json::Null),
        ("a".to_string(), Json::Bool(true)),
    ]);
    assert!(matches!(by_hand.member("a"), Some(Json::Bool(true))));
    assert_eq!(text(&by_hand), r#"{"a":true,"b":null}"#);
    let changed = by_hand.set_member("a", Json::Null);
    assert_eq!(text(&changed), r#"{"a":null,"b":null}"#);
}

#[test]
fn members_are_found_by_name() {
    let value = json(r#"{"type":"data","n":3}"#);
    assert_eq!(value.member_text("type"), Some("data"));
    assert_eq!(value.member_text("n"), None);
    assert_eq!(value.member_text("absent"), None);
    assert!(value.member("n").is_some());
    assert!(value.member("absent").is_none());
    assert!(json("[1]").member("0").is_none());
    assert!(json("\"type\"").member("type").is_none());
    assert_eq!(json("\"type\"").as_text(), Some("type"));
    assert_eq!(json("7").as_text(), None);
}

#[test]
fn a_member_is_taken_out() {
    let member = json(r#"{"a":1,"b":[2],"c":3}"#).into_member("b").unwrap();
    assert_eq!(text(&member), "[2]");
    assert!(json(r#"{"a":1}"#).into_member("b").is_none());
    assert!(json("[1]").into_member("b").is_none());
}

#[test]
fn setting_a_member_leaves_other_values_alone() {
    assert_eq!(text(&json(r#"{"a":1}"#).set_member("b", Json::Null)), r#"{"a":1,"b":null}"#);
    assert_eq!(text(&json("[1]").set_member("b", Json::Null)), "[1]");
    assert_eq!(text(&json("\"s\"").set_member("b", Json::Null)), "\"s\"");
}

#[test]
fn what_is_no_json_is_refused_with_a_reason() {
    let expected = JsonError { message: "expected value at line 1 column 1".to_string() };
    assert_eq!(Json::from_text("hello").unwrap_err(), expected);
    assert_eq!(Json::from_bytes(b"hello").unwrap_err(), expected);
    assert_eq!(
        Json::from_text("").unwrap_err().message,
        "EOF while parsing a value at line 1 column 0"
    );
    assert_eq!(
        Json::from_text("1 2").unwrap_err().message,
        "trailing characters at line 1 column 3"
    );
    assert!(Json::from_bytes(&[0x22, 0xff, 0x22]).is_err());
}

#[test]
fn what_reads_back_is_told() {
    for source in ["null", "18446744073709551615", "[-1,[\"1.5\"]]", r#"{"a":{"b":[]}}"#] {
        assert!(json(source).reads_back());
    }
    for source in ["1.5", "[1,[2.0]]", r#"{"a":{"b":1e3}}"#, "-0"] {
        assert!(!json(source).reads_back());
    }
    let shadowed = Json::Object(vec![
        ("a".to_string(), json("0.5")),
        ("a".to_string(), json("1")),
    ]);
    assert!(shadowed.reads_back());
    let shadowing = Json::Object(vec![
        ("a".to_string(), json("1")),
        ("a".to_string(), json("0.5")),
    ]);
    assert!(!shadowing.reads_back());
    let deep = |n: usize| json(&format!("{}{}", "[".repeat(n), "]".repeat(n)));
    assert!(deep(127).reads_back());
    assert!(!Json::Array(vec![deep(127)]).reads_back());
    assert!(!Json::Object(vec![("a".to_string(), deep(127))]).reads_back());
}

#[test]
fn reading_goes_as_deep_as_the_parser() {
    let deep = |n: usize| format!("{}{}", "[".repeat(n), "]".repeat(n));
    assert_eq!(text(&json(&deep(127))), deep(127));
    assert!(Json::from_text(&deep(128)).is_err());
}
