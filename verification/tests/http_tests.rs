//! The gateway's response handling: envelopes, status mapping, Retry-After.

use vyper_client::errors::VyperError;
use vyper_client::http::{parse_envelope, parse_retry_after, classify_error, process_response};
use vyper_client::json::JsonValue;

#[test]
fn retry_after_fractional_seconds() {
    assert_eq!(parse_retry_after("2.5"), Some(2500));
    assert_eq!(parse_retry_after("2"), Some(2000));
    assert_eq!(parse_retry_after("0.125"), Some(125));
    assert_eq!(parse_retry_after("0.1259"), Some(125));
    assert_eq!(parse_retry_after("10.5"), Some(10500));
    assert_eq!(parse_retry_after("0.0"), Some(0));
}

#[test]
fn retry_after_rejects_other_texts() {
    assert_eq!(parse_retry_after(""), None);
    assert_eq!(parse_retry_after("soon"), None);
    assert_eq!(parse_retry_after("2."), None);
    assert_eq!(parse_retry_after(".5"), None);
    assert_eq!(parse_retry_after("-1"), None);
    assert_eq!(parse_retry_after("2.5s"), None);
    assert_eq!(parse_retry_after("12345678901234567890"), None);
}

#[test]
fn rate_limit_carries_retry_after() {
    let e = classify_error(429, "slow down".to_string(), Some("2.5".to_string()));
    assert_eq!(
        e,
        VyperError::RateLimitError {
            message: "slow down".to_string(),
            retry_after_millis: Some(2500),
        }
    );
    let e = classify_error(429, "slow down".to_string(), None);
    assert_eq!(
        e,
        VyperError::RateLimitError {
            message: "slow down".to_string(),
            retry_after_millis: None,
        }
    );
}

#[test]
fn status_codes_map_to_their_variants() {
    let e = classify_error(401, "bad key".to_string(), None);
    assert_eq!(e, VyperError::AuthenticationError("bad key".to_string()));
    let e = classify_error(503, "down".to_string(), None);
    assert_eq!(e, VyperError::ServerError("down".to_string()));
    let e = classify_error(599, "down".to_string(), None);
    assert_eq!(e, VyperError::ServerError("down".to_string()));
    let e = classify_error(404, "missing".to_string(), None);
    assert_eq!(e, VyperError::ApiError("missing".to_string(), 404));
}

#[test]
fn envelope_parses_and_exposes_data() {
    let body = r#"{
        "status": "success",
        "message": "Chain IDs retrieved successfully",
        "data": {
            "solana": 900,
            "tron": 1000,
            "ethereum": 1,
            "base": 8453,
            "arbitrum": 42161,
            "bsc": 56,
            "blast": 81457
        }
    }"#;
    let env = parse_envelope(body).unwrap();
    assert_eq!(env.status, "success");
    assert_eq!(env.message, "Chain IDs retrieved successfully");
    let solana = env.data.get("solana").unwrap();
    match solana {
        JsonValue::Num(raw) => assert_eq!(raw, "900"),
        _ => panic!("solana should be a number"),
    }
}

#[test]
fn envelope_rejects_missing_fields() {
    assert!(parse_envelope(r#"{"status":"ok","data":1}"#).is_none());
    assert!(parse_envelope(r#"{"status":"ok","message":"m"}"#).is_none());
    assert!(parse_envelope("not json").is_none());
    assert!(parse_envelope(r#"{"status":1,"message":"m","data":null}"#).is_none());
}

#[test]
fn process_response_success_returns_data() {
    let body = r#"{"status":"success","message":"Token symbol retrieved successfully","data":{"symbol":"EXT"}}"#;
    let data = process_response(200, None, body).unwrap();
    match data.get("symbol").unwrap() {
        JsonValue::Text(t) => assert_eq!(t, "EXT"),
        _ => panic!("symbol should be a string"),
    }
}

#[test]
fn process_response_429_with_retry_after() {
    let body = r#"{"status":"error","message":"Rate limited","data":null}"#;
    let err = process_response(429, Some("2.5".to_string()), body).unwrap_err();
    assert_eq!(
        err,
        VyperError::RateLimitError {
            message: "Rate limited".to_string(),
            retry_after_millis: Some(2500),
        }
    );
}

#[test]
fn process_response_401_carries_message() {
    let body = r#"{"status":"error","message":"Invalid API key","data":null}"#;
    let err = process_response(401, None, body).unwrap_err();
    assert_eq!(
        err,
        VyperError::AuthenticationError("Invalid API key".to_string())
    );
}

#[test]
fn process_response_503_is_server_error() {
    let body = r#"{"status":"error","message":"maintenance","data":null}"#;
    let err = process_response(503, None, body).unwrap_err();
    assert_eq!(err, VyperError::ServerError("maintenance".to_string()));
}

#[test]
fn process_response_unreadable_body_is_deserialize_error() {
    let err = process_response(200, None, "<html>").unwrap_err();
    assert!(matches!(err, VyperError::DeserializeError(_)));
    let err = process_response(500, None, "<html>").unwrap_err();
    assert!(matches!(err, VyperError::DeserializeError(_)));
}

#[test]
fn error_helpers_build_exact_values() {
    let e = VyperError::websocket_error("boom".to_string(), Some(1006), Some("u".to_string()));
    assert_eq!(
        e,
        VyperError::WebsocketError {
            message: "boom".to_string(),
            status_code: Some(1006),
            connection_info: Some("u".to_string()),
        }
    );
    let e: VyperError = "Connection failed".into();
    assert_eq!(
        e,
        VyperError::WebsocketError {
            message: "Connection failed".to_string(),
            status_code: None,
            connection_info: None,
        }
    );
}
