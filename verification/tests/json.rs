//! JSON.
use phonebridge::json::{object1, object2, parse_json, parse_json_bytes, text_value, write_json, JsonValue};

#[test]
fn what_is_written_is_read_back() {
    let v = object2(
        "name",
        text_value("引号\" \\ \n"),
        "values",
        JsonValue::Array(vec![
            JsonValue::Integer(-3),
            JsonValue::Bool(true),
            JsonValue::Null,
            object1("x", JsonValue::Integer(7)),
        ]),
    );
    let written = write_json(&v);
    assert_eq!(
        written,
        r#"{"name":"引号\" \\ \n","values":[-3,true,null,{"x":7}]}"#
    );
    let read = parse_json(&written).unwrap();
    assert_eq!(write_json(&read), written);
}

#[test]
fn fractions_and_faults_are_told_apart() {
    assert!(matches!(parse_json("1.5"), Some(JsonValue::Fraction)));
    assert!(matches!(parse_json("15"), Some(JsonValue::Integer(15))));
    assert!(parse_json("{").is_none());
    assert!(parse_json("").is_none());
}

#[test]
fn bytes_that_are_no_json_say_why() {
    assert!(matches!(parse_json_bytes(b"true"), Ok(JsonValue::Bool(true))));
    match parse_json_bytes(b"{\"a\":") {
        Err(why) => {
            let own = serde_json::from_slice::<serde_json::Value>(b"{\"a\":").unwrap_err();
            assert_eq!(why, own.to_string());
        }
        Ok(_) => panic!("no JSON document"),
    }
}

#[test]
fn members_are_found_by_name() {
    let v = parse_json(r#"{"a":{"b":"c"},"d":false}"#).unwrap();
    assert_eq!(v.get("a").and_then(|a| a.get("b")).and_then(|b| b.as_str()), Some("c"));
    assert_eq!(v.get("d").and_then(|d| d.as_bool()), Some(false));
    assert!(v.get("e").is_none());
}
