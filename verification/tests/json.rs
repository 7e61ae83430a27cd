use miai::json::{Json, JsonNumber};

#[test]
fn reads_and_writes_compact_text() {
    let json = Json::parse("{ \"b\": [1, -2, true, null], \"a\": \"小爱\" }").unwrap();
    assert_eq!(json.to_text(), "{\"a\":\"小爱\",\"b\":[1,-2,true,null]}");
}

#[test]
fn carries_floats_along() {
    let json = Json::parse("{\"x\": 0.5, \"y\": [1.25]}").unwrap();
    assert_eq!(json.to_text(), "{\"x\":0.5,\"y\":[1.25]}");
    assert_eq!(json.clone().to_text(), "{\"x\":0.5,\"y\":[1.25]}");
    assert_eq!(json.get("x").unwrap().as_i64(), None);
}

#[test]
fn tells_what_cannot_be_read() {
    let report = Json::parse("{").unwrap_err();
    assert_eq!(report, serde_json::from_str::<serde_json::Value>("{").unwrap_err().to_string());
    assert!(Json::parse("").is_err());
}

#[test]
fn reads_bytes() {
    assert_eq!(Json::parse_bytes("[\"你\"]".as_bytes()).unwrap().to_text(), "[\"你\"]");
    let bytes: Vec<u8> = vec![34, 255, 34];
    assert!(Json::parse_bytes(&bytes).is_err());
}

#[test]
fn the_last_member_of_a_key_counts() {
    let read = Json::parse("{\"a\": 1, \"a\": 2}").unwrap();
    assert_eq!(read.get("a").unwrap().as_i64(), Some(2));
    let built = Json::object().with("a", Json::number(1)).with("a", Json::number(2));
    assert_eq!(built.get("a").unwrap().as_i64(), Some(2));
    assert_eq!(built.to_text(), "{\"a\":2}");
    let built = built.with("b", Json::Null).with("a", Json::number(3)).with("b", Json::text("x"));
    assert_eq!(built.to_text(), "{\"a\":3,\"b\":\"x\"}");
}

#[test]
fn only_objects_have_members() {
    assert!(Json::Null.get("a").is_none());
    assert!(Json::text("a").get("a").is_none());
    assert!(Json::array_of(Json::number(1)).get("a").is_none());
    assert!(Json::object().get("a").is_none());
}

#[test]
fn integers_that_fit() {
    let integer = |text: &str| Json::parse(text).unwrap().as_i64();
    assert_eq!(integer("9223372036854775807"), Some(i64::MAX));
    assert_eq!(integer("9223372036854775808"), None);
    assert_eq!(integer("-9223372036854775808"), Some(i64::MIN));
    assert_eq!(integer("1.0"), None);
    assert_eq!(integer("\"1\""), None);
    assert_eq!(Json::Number(JsonNumber::NegInt(7)).as_i64(), Some(7));
}

#[test]
fn values_keep_what_they_hold() {
    let text = "{\"a\":[{\"b\":-1},[],{}],\"c\":18446744073709551615}";
    let value: serde_json::Value = serde_json::from_str(text).unwrap();
    let json = Json::from_value(value.clone());
    assert_eq!(json.to_value(), value);
    assert_eq!(json.clone().to_value(), value);
    assert_eq!(json.to_text(), text);
}

#[test]
fn tells_kinds_apart() {
    assert!(Json::object().is_object());
    assert!(!Json::Null.is_object());
    assert!(Json::text("").is_string());
    assert!(!Json::Bool(true).is_string());
    assert_eq!(Json::text("x").as_str(), Some("x"));
    assert_eq!(Json::number(1).as_str(), None);
    assert_eq!(Json::array_of(Json::Null).as_array().unwrap().len(), 1);
    assert!(Json::object().as_array().is_none());
}

#[test]
fn writes_indented_text() {
    let json = Json::parse("{\"b\":[1],\"a\":{}}").unwrap();
    assert_eq!(json.to_pretty_text(), "{\n  \"a\": {},\n  \"b\": [\n    1\n  ]\n}");
}
