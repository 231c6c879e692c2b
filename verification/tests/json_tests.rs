//! The JSON reader on well-formed and malformed documents.

use vyper_client::json::{parse_json, JsonValue};

#[test]
fn parses_scalars() {
    assert!(matches!(parse_json("null"), Some(JsonValue::Null)));
    assert!(matches!(parse_json("true"), Some(JsonValue::Bool(true))));
    assert!(matches!(parse_json("false"), Some(JsonValue::Bool(false))));
    assert!(matches!(parse_json("0"), Some(JsonValue::Num(_))));
    assert!(matches!(parse_json("-0.5"), Some(JsonValue::Num(_))));
    match parse_json("-12.5e3").unwrap() {
        JsonValue::Num(raw) => assert_eq!(raw, "-12.5e3"),
        _ => panic!("expected a number"),
    }
    match parse_json("\"hi\"").unwrap() {
        JsonValue::Text(t) => assert_eq!(t, "hi"),
        _ => panic!("expected a string"),
    }
}

#[test]
fn parses_nested_structures() {
    let v = parse_json(r#" { "a" : [1, {"b": null}, "x"] , "c": true } "#).unwrap();
    let a = v.get("a").unwrap();
    match a {
        JsonValue::Arr(items) => {
            assert_eq!(items.len(), 3);
            assert!(items[1].get("b").is_some());
        }
        _ => panic!("a should be an array"),
    }
    assert!(matches!(v.get("c"), Some(JsonValue::Bool(true))));
    assert!(v.get("d").is_none());
}

#[test]
fn decodes_escapes() {
    match parse_json(r#""a\"b\\c\ndA""#).unwrap() {
        JsonValue::Text(t) => assert_eq!(t, "a\"b\\c\ndA"),
        _ => panic!("expected a string"),
    }
}

#[test]
fn decodes_unicode_escapes() {
    match parse_json(r#""snow \u2603""#).unwrap() {
        JsonValue::Text(t) => assert_eq!(t, "snow \u{2603}"),
        _ => panic!("expected a string"),
    }
    match parse_json(r#""pair \ud83d\ude00""#).unwrap() {
        JsonValue::Text(t) => assert_eq!(t, "pair \u{1f600}"),
        _ => panic!("expected a string"),
    }
    match parse_json(r#""nul \u0000""#).unwrap() {
        JsonValue::Text(t) => assert_eq!(t, "nul \u{0}"),
        _ => panic!("expected a string"),
    }
}

#[test]
fn rejects_lone_surrogate_escapes() {
    assert!(parse_json(r#""\ud83d""#).is_none());
    assert!(parse_json(r#""\ude00""#).is_none());
    assert!(parse_json(r#""\ud83d\u0041""#).is_none());
    assert!(parse_json(r#""\u123""#).is_none());
}

#[test]
fn raw_characters_pass_through() {
    match parse_json("\"snow \u{2603}\"").unwrap() {
        JsonValue::Text(t) => assert_eq!(t, "snow \u{2603}"),
        _ => panic!("expected a string"),
    }
}

#[test]
fn rejects_malformed_documents() {
    assert!(parse_json("").is_none());
    assert!(parse_json("{").is_none());
    assert!(parse_json("[1,]").is_none());
    assert!(parse_json("{\"a\":1,}").is_none());
    assert!(parse_json("\"unterminated").is_none());
    assert!(parse_json("nul").is_none());
    assert!(parse_json("1 2").is_none());
    assert!(parse_json("01").is_none());
    assert!(parse_json("-01").is_none());
    assert!(parse_json("{\"a\": 007}").is_none());
    assert!(parse_json("{\"a\" 1}").is_none());
}

#[test]
fn duplicate_keys_resolve_to_the_first() {
    let v = parse_json(r#"{"k": 1, "k": 2}"#).unwrap();
    match v.get("k").unwrap() {
        JsonValue::Num(raw) => assert_eq!(raw, "1"),
        _ => panic!("k should be a number"),
    }
}

#[test]
fn clone_preserves_the_reading() {
    let v = parse_json(r#"{"a":[1,2],"b":"x"}"#).unwrap();
    let w = v.clone();
    assert!(w.get("a").is_some());
    match w.get("b").unwrap() {
        JsonValue::Text(t) => assert_eq!(t, "x"),
        _ => panic!("b should be a string"),
    }
}
