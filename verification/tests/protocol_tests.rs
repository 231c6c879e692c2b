//! The wire codec: exact frame texts and round trips.

use vyper_client::protocol::{
    FeedType, SubscriptionMessageType, SubscriptionType, TokenSubscriptionMessage,
    WalletSubscriptionMessage,
};

#[test]
fn feed_paths() {
    assert_eq!(FeedType::TokenEvents.path(), "token-events");
    assert_eq!(FeedType::MigrationEvents.path(), "migration-events");
    assert_eq!(FeedType::WalletEvents.path(), "wallet-events");
}

#[test]
fn token_message_encodes_exactly() {
    let m = TokenSubscriptionMessage {
        action: SubscriptionMessageType::Subscribe,
        types: vec![
            SubscriptionType::PumpfunTokens,
            SubscriptionType::RaydiumAmmTokens,
            SubscriptionType::RaydiumCpmmTokens,
            SubscriptionType::RaydiumClmmTokens,
        ],
    };
    assert_eq!(
        m.encode(),
        r#"{"action":"subscribe","types":["PumpfunTokens","RaydiumAmmTokens","RaydiumCpmmTokens","RaydiumClmmTokens"]}"#
    );
}

#[test]
fn empty_lists_encode_exactly() {
    let m = TokenSubscriptionMessage {
        action: SubscriptionMessageType::Unsubscribe,
        types: vec![],
    };
    assert_eq!(m.encode(), r#"{"action":"unsubscribe","types":[]}"#);
    let w = WalletSubscriptionMessage {
        action: SubscriptionMessageType::Subscribe,
        wallets: vec![],
    };
    assert_eq!(w.encode(), r#"{"action":"subscribe","wallets":[]}"#);
}

#[test]
fn wallet_message_encodes_exactly() {
    let m = WalletSubscriptionMessage {
        action: SubscriptionMessageType::Subscribe,
        wallets: vec!["0x123".to_string(), "0xabc".to_string()],
    };
    assert_eq!(
        m.encode(),
        r#"{"action":"subscribe","wallets":["0x123","0xabc"]}"#
    );
}

#[test]
fn wallet_addresses_are_escaped() {
    let m = WalletSubscriptionMessage {
        action: SubscriptionMessageType::Subscribe,
        wallets: vec!["a\"b\\c\nd".to_string()],
    };
    assert_eq!(
        m.encode(),
        "{\"action\":\"subscribe\",\"wallets\":[\"a\\\"b\\\\c\\u000ad\"]}"
    );
}

#[test]
fn token_round_trip() {
    let m = TokenSubscriptionMessage {
        action: SubscriptionMessageType::Subscribe,
        types: vec![
            SubscriptionType::RaydiumClmmTokens,
            SubscriptionType::PumpfunTokens,
        ],
    };
    let text = m.encode();
    let back = TokenSubscriptionMessage::decode(text.as_str()).unwrap();
    assert_eq!(back.action, SubscriptionMessageType::Subscribe);
    assert_eq!(
        back.types,
        vec![
            SubscriptionType::RaydiumClmmTokens,
            SubscriptionType::PumpfunTokens,
        ]
    );
}

#[test]
fn token_round_trip_unsubscribe_empty() {
    let m = TokenSubscriptionMessage {
        action: SubscriptionMessageType::Unsubscribe,
        types: vec![],
    };
    let back = TokenSubscriptionMessage::decode(m.encode().as_str()).unwrap();
    assert_eq!(back.action, SubscriptionMessageType::Unsubscribe);
    assert_eq!(back.types, vec![]);
}

#[test]
fn wallet_round_trip_with_escapes() {
    let m = WalletSubscriptionMessage {
        action: SubscriptionMessageType::Unsubscribe,
        wallets: vec![
            "plain".to_string(),
            "quo\"te".to_string(),
            "back\\slash".to_string(),
            "tab\there".to_string(),
            "".to_string(),
            "snow \u{2603} pair \u{1f600}".to_string(),
        ],
    };
    let text = m.encode();
    let back = WalletSubscriptionMessage::decode(text.as_str()).unwrap();
    assert_eq!(back.action, SubscriptionMessageType::Unsubscribe);
    assert_eq!(
        back.wallets,
        vec![
            "plain".to_string(),
            "quo\"te".to_string(),
            "back\\slash".to_string(),
            "tab\there".to_string(),
            "".to_string(),
            "snow \u{2603} pair \u{1f600}".to_string(),
        ]
    );
}

#[test]
fn decode_rejects_foreign_texts() {
    assert!(TokenSubscriptionMessage::decode("").is_none());
    assert!(TokenSubscriptionMessage::decode("{}").is_none());
    assert!(TokenSubscriptionMessage::decode(
        r#"{"action":"subscribe","types":["NoSuchFamily"]}"#
    )
    .is_none());
    assert!(TokenSubscriptionMessage::decode(
        r#"{"action":"resubscribe","types":[]}"#
    )
    .is_none());
    assert!(WalletSubscriptionMessage::decode(
        r#"{"action":"subscribe","types":["PumpfunTokens"]}"#
    )
    .is_none());
    assert!(TokenSubscriptionMessage::decode(
        r#"{"action":"subscribe","types":["PumpfunTokens"]} "#
    )
    .is_none());
}
