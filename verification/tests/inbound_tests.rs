//! Frame conversion: which payloads count as well-formed for each feed.

use vyper_client::inbound::{check_chain_action, check_token_pair, frame_event};
use vyper_client::json::parse_json;
use vyper_client::protocol::FeedType;

fn token_pair_text(chain_id: &str) -> String {
    format!(
        r#"{{
        "buyTxnCount": 10, "chainId": {}, "contractCreator": "c",
        "createdTimestamp": 1631234567, "initialAssetLiquidity": 1.0,
        "initialUsdLiquidity": 2.0, "lpBurned": true, "lpCreator": "l",
        "marketId": "m", "name": "n", "pooledAsset": 1.0, "pooledToken": 2.0,
        "priceChangePercent": 0.5, "sellTxnCount": 5, "symbol": "s",
        "tokenLiquidityAsset": 1.0, "tokenLiquidityUsd": 1.0,
        "tokenMarketCapAsset": 1.0, "tokenMarketCapUsd": 1.0,
        "tokenMint": "t", "tokenPriceAsset": 1.0, "tokenPriceUsd": 1.0,
        "tokenType": "SPL", "top10HoldingPercent": 1.0, "totalSupply": 1.0,
        "transactionCount": 15, "volumeAsset": 1.0, "volumeUsd": 1.0
    }}"#,
        chain_id
    )
}

#[test]
fn token_pair_accepts_integer_bounds() {
    let v = parse_json(&token_pair_text("2147483647")).unwrap();
    assert!(check_token_pair(&v));
    let v = parse_json(&token_pair_text("-2147483648")).unwrap();
    assert!(check_token_pair(&v));
}

#[test]
fn token_pair_rejects_out_of_range_integers() {
    let v = parse_json(&token_pair_text("2147483648")).unwrap();
    assert!(!check_token_pair(&v));
    let v = parse_json(&token_pair_text("1.5")).unwrap();
    assert!(!check_token_pair(&v));
}

#[test]
fn token_pair_rejects_a_missing_required_field() {
    let text = token_pair_text("1").replace(r#""marketId": "m","#, "");
    let v = parse_json(&text).unwrap();
    assert!(!check_token_pair(&v));
}

#[test]
fn token_pair_checks_optional_field_kinds() {
    let text = token_pair_text("1").replace(
        r#""buyTxnCount": 10,"#,
        r#""buyTxnCount": 10, "telegram": null, "isMigrated": true,
           "migrationState": {"durationMinutes": 5, "makers": 2,
                              "migrationTimestamp": 1700000000, "volume": 3.5},"#,
    );
    let v = parse_json(&text).unwrap();
    assert!(check_token_pair(&v));

    let bad = token_pair_text("1").replace(
        r#""buyTxnCount": 10,"#,
        r#""buyTxnCount": 10, "telegram": 7,"#,
    );
    let v = parse_json(&bad).unwrap();
    assert!(!check_token_pair(&v));

    let bad = token_pair_text("1").replace(
        r#""buyTxnCount": 10,"#,
        r#""buyTxnCount": 10, "migrationState": {"makers": 2},"#,
    );
    let v = parse_json(&bad).unwrap();
    assert!(!check_token_pair(&v));
}

#[test]
fn feed_type_selects_the_shape() {
    let token_text = token_pair_text("1");
    assert!(frame_event(&FeedType::TokenEvents, &token_text).is_some());
    assert!(frame_event(&FeedType::MigrationEvents, &token_text).is_some());
    assert!(frame_event(&FeedType::WalletEvents, &token_text).is_none());
}

#[test]
fn chain_action_shape() {
    let text = r#"{
        "signer": "w", "transactionId": "tx", "marketId": "m",
        "actionType": "buy", "tokenAmount": 1.0, "assetAmount": 1.0,
        "tokenPriceUsd": 1.0, "tokenPriceAsset": 1.0,
        "tokenMarketCapAsset": 1.0, "tokenMarketCapUsd": 1.0,
        "tokenLiquidityAsset": 1.0, "tokenLiquidityUsd": 1.0,
        "pooledToken": 1.0, "pooledAsset": 1.0,
        "actionTimestamp": 1700000000,
        "swapTotalUsd": 2.5, "botUsed": null
    }"#;
    let v = parse_json(text).unwrap();
    assert!(check_chain_action(&v));

    let missing = text.replace(r#""signer": "w","#, "");
    let v = parse_json(&missing).unwrap();
    assert!(!check_chain_action(&v));
}

#[test]
fn malformed_text_yields_no_event() {
    assert!(frame_event(&FeedType::TokenEvents, "{not json").is_none());
    assert!(frame_event(&FeedType::TokenEvents, "42").is_none());
    assert!(frame_event(&FeedType::WalletEvents, "[]").is_none());
}
