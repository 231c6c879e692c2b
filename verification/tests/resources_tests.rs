//! The typed resources and the token-pairs query parameters.

use vyper_client::json::parse_json;
use vyper_client::resources::{TokenMetadata, TokenSymbol, TokenPairsParams};

#[test]
fn test_get_token_metadata() {
    let data = parse_json(
        r#"{
        "image": "https://example.com/token.png",
        "name": "Example Token",
        "symbol": "EXT",
        "telegram": "https://t.me/exampletoken",
        "twitter": "https://twitter.com/exampletoken",
        "website": "https://exampletoken.com"
    }"#,
    )
    .unwrap();
    let md = TokenMetadata::from_json(&data).unwrap();
    assert_eq!(md.name, "Example Token");
    assert_eq!(md.symbol, "EXT");
    assert_eq!(md.image.unwrap(), "https://example.com/token.png");
    assert_eq!(md.telegram.unwrap(), "https://t.me/exampletoken");
    assert_eq!(md.twitter.unwrap(), "https://twitter.com/exampletoken");
    assert_eq!(md.website.unwrap(), "https://exampletoken.com");
}

#[test]
fn metadata_optionals_may_be_absent_or_null() {
    let data = parse_json(r#"{"name":"N","symbol":"S","image":null}"#).unwrap();
    let md = TokenMetadata::from_json(&data).unwrap();
    assert_eq!(md.name, "N");
    assert!(md.image.is_none());
    assert!(md.website.is_none());
}

#[test]
fn metadata_requires_name_and_symbol() {
    let data = parse_json(r#"{"symbol":"S"}"#).unwrap();
    assert!(TokenMetadata::from_json(&data).is_none());
    let data = parse_json(r#"{"name":"N","symbol":7}"#).unwrap();
    assert!(TokenMetadata::from_json(&data).is_none());
}

#[test]
fn test_get_token_symbol() {
    let data = parse_json(r#"{"symbol":"EXT"}"#).unwrap();
    let ts = TokenSymbol::from_json(&data).unwrap();
    assert_eq!(ts.symbol, "EXT");
}

#[test]
fn default_params_send_nothing() {
    let p = TokenPairsParams::default();
    assert_eq!(p.query_params().len(), 0);
}

#[test]
fn set_params_appear_in_field_order() {
    let mut p = TokenPairsParams::default();
    p.at_least_one_social = Some(true);
    p.buys_min = Some(-3);
    p.chain_ids = Some(vec![900, 1]);
    p.interval = Some("24h".to_string());
    p.liquidity_min = Some("0.5".to_string());
    p.page = Some(2);
    p.token_types = Some(vec!["token".to_string(), "meme".to_string()]);
    let qp = p.query_params();
    let got: Vec<(String, String)> = qp;
    assert_eq!(
        got,
        vec![
            ("atLeastOneSocial".to_string(), "true".to_string()),
            ("buysMin".to_string(), "-3".to_string()),
            ("chainIds".to_string(), "900,1".to_string()),
            ("interval".to_string(), "24h".to_string()),
            ("liquidityMin".to_string(), "0.5".to_string()),
            ("page".to_string(), "2".to_string()),
            ("tokenTypes".to_string(), "token,meme".to_string()),
        ]
    );
}

#[test]
fn test_get_token_pairs() {
    let mut p = TokenPairsParams::default();
    p.chain_ids = Some(vec![900]);
    p.page = Some(1);
    let qp = p.query_params();
    assert_eq!(qp.len(), 2);
    assert_eq!(qp[0], ("chainIds".to_string(), "900".to_string()));
    assert_eq!(qp[1], ("page".to_string(), "1".to_string()));
}

#[test]
fn test_get_token_holders() {
    let data = parse_json(
        r#"{
        "holders": [
            {
                "walletAddress": "0x123...",
                "tokenHoldings": 100.0,
                "usdHoldings": 5000000.0,
                "percentOwned": 10.0,
                "walletTag": null
            }
        ],
        "total_holders": 1000
    }"#,
    )
    .unwrap();
    let (holders, total) = vyper_client::resources::split_token_holders(&data).unwrap();
    assert_eq!(total, 1000);
    match holders {
        vyper_client::json::JsonValue::Arr(items) => assert_eq!(items.len(), 1),
        _ => panic!("holders should be a list"),
    }
}

#[test]
fn token_holders_split_requires_both_parts() {
    let data = parse_json(r#"{"holders": []}"#).unwrap();
    assert!(vyper_client::resources::split_token_holders(&data).is_none());
    let data = parse_json(r#"{"total_holders": 7}"#).unwrap();
    assert!(vyper_client::resources::split_token_holders(&data).is_none());
    let data = parse_json(r#"{"holders": [], "total_holders": 1.5}"#).unwrap();
    assert!(vyper_client::resources::split_token_holders(&data).is_none());
}
