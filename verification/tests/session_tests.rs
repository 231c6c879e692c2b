//! The session's state machine, driven over a scripted transport.

use vyper_client::protocol::{
    FeedType, SubscriptionMessageType, SubscriptionType, TokenSubscriptionMessage,
    WalletSubscriptionMessage,
};
use vyper_client::replay::{RecordingHandler, ScriptedConnection};
use vyper_client::session::VyperWebsocketClient;
use vyper_client::errors::VyperError;

type Client = VyperWebsocketClient<ScriptedConnection, RecordingHandler>;

const TOKEN_PAIR_FRAME: &str = r#"{
    "event": "tokenPair",
    "chainId": 1,
    "tokenMint": "0x123",
    "name": "Test Token",
    "symbol": "TEST",
    "buyTxnCount": 10,
    "sellTxnCount": 5,
    "tokenPriceUsd": 1.5,
    "tokenPriceAsset": 0.1,
    "volumeUsd": 1000.0,
    "volumeAsset": 100.0,
    "tokenMarketCapUsd": 1000000.0,
    "tokenMarketCapAsset": 100000.0,
    "tokenLiquidityUsd": 500000.0,
    "tokenLiquidityAsset": 50000.0,
    "transactionCount": 15,
    "contractCreator": "0x456",
    "lpCreator": "0x789",
    "createdTimestamp": 1631234567,
    "totalSupply": 1000000.0,
    "pooledToken": 500000.0,
    "pooledAsset": 50000.0,
    "initialUsdLiquidity": 100000.0,
    "initialAssetLiquidity": 10000.0,
    "priceChangePercent": 5.0,
    "top10HoldingPercent": 60.0,
    "lpBurned": false,
    "tokenType": "SPL",
    "marketId": "market1"
}"#;

#[test]
fn test_new_client() {
    let client = Client::new("test_api_key".to_string());
    assert_eq!(client.base_url().as_str(), "wss://api.vyper.trade/api/v1/ws");
    assert_eq!(client.api_key().as_str(), "test_api_key");
    assert!(!client.is_connected());
    assert_eq!(client.active_feed(), None);
}

#[test]
fn test_connect() {
    let mut client = Client::new("test_api_key".to_string());
    let transport = ScriptedConnection::with_frames(Vec::new());
    let result = client.connect_with(FeedType::TokenEvents, transport);
    assert!(result.is_ok());
    assert_eq!(client.active_feed(), Some(FeedType::TokenEvents));
    assert!(client.is_connected());
    let conn = client.transport().as_ref().unwrap();
    assert_eq!(
        conn.urls()[0].as_str(),
        "wss://api.vyper.trade/api/v1/ws/token-events?apiKey=test_api_key"
    );
}

#[test]
fn test_disconnect() {
    let mut client = Client::new("test_api_key".to_string());
    let transport = ScriptedConnection::with_frames(Vec::new());
    client.connect_with(FeedType::TokenEvents, transport).unwrap();
    let result = client.disconnect();
    assert!(result.is_ok());
    assert!(!client.is_connected());
    assert_eq!(client.active_feed(), None);
}

#[test]
fn test_subscribe() {
    let mut client = Client::new("test_api_key".to_string());
    let transport = ScriptedConnection::with_frames(Vec::new());
    client.connect_with(FeedType::TokenEvents, transport).unwrap();

    let message = TokenSubscriptionMessage {
        action: SubscriptionMessageType::Subscribe,
        types: vec![SubscriptionType::PumpfunTokens],
    };

    let result = client.subscribe(FeedType::TokenEvents, message);
    assert!(result.is_ok());
    let sent = client.transport().as_ref().unwrap().sent_frames();
    assert_eq!(sent.len(), 1);
    assert_eq!(
        sent[0].as_str(),
        r#"{"action":"subscribe","types":["PumpfunTokens"]}"#
    );
}

#[test]
fn test_unsubscribe() {
    let mut client = Client::new("test_api_key".to_string());
    let transport = ScriptedConnection::with_frames(Vec::new());
    client.connect_with(FeedType::TokenEvents, transport).unwrap();

    let message = TokenSubscriptionMessage {
        action: SubscriptionMessageType::Unsubscribe,
        types: vec![SubscriptionType::PumpfunTokens],
    };

    let result = client.unsubscribe(FeedType::TokenEvents, message);
    assert!(result.is_ok());
    let sent = client.transport().as_ref().unwrap().sent_frames();
    assert_eq!(
        sent[0].as_str(),
        r#"{"action":"unsubscribe","types":["PumpfunTokens"]}"#
    );
}

#[test]
fn test_ping() {
    let mut client = Client::new("test_api_key".to_string());
    let transport = ScriptedConnection::with_frames(Vec::new());
    client.connect_with(FeedType::TokenEvents, transport).unwrap();
    let result = client.ping();
    assert!(result.is_ok());
    let sent = client.transport().as_ref().unwrap().sent_frames();
    assert_eq!(sent.len(), 1);
    assert_eq!(sent[0].as_str(), "ping");
}

#[test]
fn test_listen() {
    let mut client = Client::new("test_api_key".to_string());
    let transport = ScriptedConnection::with_frames(vec![TOKEN_PAIR_FRAME.to_string()]);
    client.connect_with(FeedType::TokenEvents, transport).unwrap();
    client.set_message_handler(RecordingHandler::new());

    let result = client.listen();
    assert!(result.is_ok());

    let events = client.handler().as_ref().unwrap().events();
    assert_eq!(events.len(), 1, "Message was not received and processed");
    let msg = &events[0];
    assert!(msg.get("chainId").is_some(), "chainId field is missing");
    assert!(msg.get("tokenMint").is_some(), "tokenMint field is missing");
    assert!(msg.get("name").is_some(), "name field is missing");
    assert!(msg.get("symbol").is_some(), "symbol field is missing");
}

#[test]
fn test_error_handling() {
    let mut client = Client::new("test_api_key".to_string());
    let transport = ScriptedConnection::refusing();
    let result = client.connect_with(FeedType::TokenEvents, transport);
    assert!(result.is_err());
    match result.unwrap_err() {
        VyperError::WebsocketError {
            message,
            status_code,
            connection_info,
        } => {
            assert_eq!(message, "Connection failed");
            assert_eq!(status_code, None);
            assert_eq!(
                connection_info.unwrap(),
                "wss://api.vyper.trade/api/v1/ws/token-events?apiKey=test_api_key"
            );
        }
        other => panic!("unexpected error: {:?}", other),
    }
    assert!(!client.is_connected());
}

#[test]
fn test_set_message_handler() {
    let mut client = Client::new("test_api_key".to_string());
    client.set_message_handler(RecordingHandler::new());
    assert!(client.has_message_handler());
}

#[test]
fn test_feed_type_mismatch() {
    let mut client = Client::new("test_api_key".to_string());
    let transport = ScriptedConnection::with_frames(Vec::new());
    client.connect_with(FeedType::TokenEvents, transport).unwrap();

    let message = WalletSubscriptionMessage {
        action: SubscriptionMessageType::Subscribe,
        wallets: vec!["0x123".to_string()],
    };

    let result = client.subscribe(FeedType::WalletEvents, message);
    assert!(result.is_err());
    assert_eq!(
        result.unwrap_err(),
        VyperError::WebsocketError {
            message: "Feed type mismatch".to_string(),
            status_code: None,
            connection_info: None,
        }
    );
    let sent = client.transport().as_ref().unwrap().sent_frames();
    assert_eq!(sent.len(), 0);
}

#[test]
fn subscribe_from_disconnected_fails_without_writes() {
    let mut client = Client::new("test_api_key".to_string());
    let message = TokenSubscriptionMessage {
        action: SubscriptionMessageType::Subscribe,
        types: vec![SubscriptionType::PumpfunTokens],
    };
    let result = client.subscribe(FeedType::TokenEvents, message);
    assert_eq!(
        result.unwrap_err(),
        VyperError::WebsocketError {
            message: "Not connected".to_string(),
            status_code: None,
            connection_info: None,
        }
    );
    let message = WalletSubscriptionMessage {
        action: SubscriptionMessageType::Unsubscribe,
        wallets: vec!["0xabc".to_string()],
    };
    let result = client.unsubscribe(FeedType::WalletEvents, message);
    assert_eq!(
        result.unwrap_err(),
        VyperError::WebsocketError {
            message: "Not connected".to_string(),
            status_code: None,
            connection_info: None,
        }
    );
    assert!(!client.is_connected());
}

#[test]
fn mismatch_fails_for_every_distinct_feed_pair() {
    let feeds = [
        FeedType::TokenEvents,
        FeedType::MigrationEvents,
        FeedType::WalletEvents,
    ];
    for active in feeds {
        for asked in feeds {
            if active == asked {
                continue;
            }
            let mut client = Client::new("test_api_key".to_string());
            let transport = ScriptedConnection::with_frames(Vec::new());
            client.connect_with(active, transport).unwrap();
            let message = TokenSubscriptionMessage {
                action: SubscriptionMessageType::Subscribe,
                types: vec![SubscriptionType::RaydiumAmmTokens],
            };
            let result = client.subscribe(asked, message);
            assert_eq!(
                result.unwrap_err(),
                VyperError::WebsocketError {
                    message: "Feed type mismatch".to_string(),
                    status_code: None,
                    connection_info: None,
                }
            );
            assert_eq!(client.transport().as_ref().unwrap().sent_frames().len(), 0);
            assert_eq!(client.active_feed(), Some(active));
        }
    }
}

#[test]
fn ping_from_disconnected_is_a_no_op() {
    let mut client = Client::new("test_api_key".to_string());
    let result = client.ping();
    assert!(result.is_ok());
    assert!(!client.is_connected());
    assert!(client.transport().is_none());
}

#[test]
fn connect_records_each_feed() {
    let feeds = [
        (FeedType::TokenEvents, "token-events"),
        (FeedType::MigrationEvents, "migration-events"),
        (FeedType::WalletEvents, "wallet-events"),
    ];
    for (feed, path) in feeds {
        let mut client = Client::new("k".to_string());
        let transport = ScriptedConnection::with_frames(Vec::new());
        client.connect_with(feed, transport).unwrap();
        assert!(client.is_connected());
        assert_eq!(client.active_feed(), Some(feed));
        let url = format!("wss://api.vyper.trade/api/v1/ws/{}?apiKey=k", path);
        assert_eq!(client.transport().as_ref().unwrap().urls()[0], url);
    }
}

#[test]
fn listen_skips_malformed_frames() {
    let mut client = Client::new("test_api_key".to_string());
    let transport = ScriptedConnection::with_frames(vec![
        "this is not json".to_string(),
        TOKEN_PAIR_FRAME.to_string(),
    ]);
    client.connect_with(FeedType::TokenEvents, transport).unwrap();
    client.set_message_handler(RecordingHandler::new());
    let result = client.listen();
    assert!(result.is_ok());
    let events = client.handler().as_ref().unwrap().events();
    assert_eq!(events.len(), 1);
    assert!(events[0].get("marketId").is_some());
}

#[test]
fn listen_ends_cleanly_after_stream_end() {
    let mut client = Client::new("test_api_key".to_string());
    let transport = ScriptedConnection::with_frames(vec![TOKEN_PAIR_FRAME.to_string()]);
    client.connect_with(FeedType::TokenEvents, transport).unwrap();
    client.set_message_handler(RecordingHandler::new());
    assert!(client.listen().is_ok());
    assert!(client.is_connected());
    assert_eq!(client.active_feed(), Some(FeedType::TokenEvents));
    assert_eq!(client.handler().as_ref().unwrap().events().len(), 1);
    // the stream is spent: listening again delivers nothing further
    assert!(client.listen().is_ok());
    assert_eq!(client.handler().as_ref().unwrap().events().len(), 1);
}

#[test]
fn listen_from_disconnected_reports_not_connected() {
    let mut client = Client::new("test_api_key".to_string());
    let result = client.listen();
    assert_eq!(
        result.unwrap_err(),
        VyperError::WebsocketError {
            message: "Not connected".to_string(),
            status_code: None,
            connection_info: None,
        }
    );
}

#[test]
fn disconnect_from_disconnected_is_ok() {
    let mut client = Client::new("test_api_key".to_string());
    assert!(client.disconnect().is_ok());
    assert!(!client.is_connected());
}

#[test]
fn wallet_feed_delivers_chain_actions() {
    let frame = r#"{
        "signer": "walletA",
        "transactionId": "tx1",
        "marketId": "m1",
        "actionType": "buy",
        "tokenAmount": 5.0,
        "assetAmount": 1.0,
        "tokenPriceUsd": 2.0,
        "tokenPriceAsset": 0.5,
        "tokenMarketCapAsset": 10.0,
        "tokenMarketCapUsd": 20.0,
        "tokenLiquidityAsset": 3.0,
        "tokenLiquidityUsd": 6.0,
        "pooledToken": 100.0,
        "pooledAsset": 50.0,
        "actionTimestamp": 1700000000
    }"#;
    let mut client = Client::new("k".to_string());
    let transport = ScriptedConnection::with_frames(vec![
        frame.to_string(),
        TOKEN_PAIR_FRAME.to_string(),
    ]);
    client.connect_with(FeedType::WalletEvents, transport).unwrap();
    client.set_message_handler(RecordingHandler::new());
    assert!(client.listen().is_ok());
    // the token-pair frame does not fit the wallet feed's shape: skipped
    let events = client.handler().as_ref().unwrap().events();
    assert_eq!(events.len(), 1);
    assert!(events[0].get("signer").is_some());
}
