//! Inbound frame conversion: the shape each feed's events must have, and the
//! check that turns a received text frame into a deliverable event.
//!
//! The wallet feed carries chain-action records; the token and migration
//! feeds carry token-pair records. The shape is chosen by the session's
//! active feed type, never by inspecting the payload. A frame that does not
//! read as JSON of the right shape yields no event; the session skips it.

use vstd::prelude::*;
use crate::json::{JsonValue, JsonNode, node_of, node_get, sp_doc, parse_json};
use crate::protocol::FeedType;
use crate::text::{int_of_num_text, num_text_in_range};

verus! {

/// The field `key` is present and a string.
pub open spec fn field_is_text(n: JsonNode, key: Seq<char>) -> bool {
    node_get(n, key) matches Some(JsonNode::Text(_))
}

/// The field `key` is present and a boolean.
pub open spec fn field_is_bool(n: JsonNode, key: Seq<char>) -> bool {
    node_get(n, key) matches Some(JsonNode::Bool(_))
}

/// The field `key` is present and a number.
pub open spec fn field_is_num(n: JsonNode, key: Seq<char>) -> bool {
    node_get(n, key) matches Some(JsonNode::Num(_))
}

/// The field `key` is present and an integer between `lo` and `hi`.
pub open spec fn field_is_int(n: JsonNode, key: Seq<char>, lo: int, hi: int) -> bool {
    match node_get(n, key) {
        Some(JsonNode::Num(raw)) => match int_of_num_text(raw) {
            Some(v) => lo <= v <= hi,
            None => false,
        },
        _ => false,
    }
}

/// The field `key` is absent, null, or a string.
pub open spec fn field_opt_text(n: JsonNode, key: Seq<char>) -> bool {
    match node_get(n, key) {
        None => true,
        Some(JsonNode::Null) => true,
        Some(JsonNode::Text(_)) => true,
        _ => false,
    }
}

/// The field `key` is absent, null, or a boolean.
pub open spec fn field_opt_bool(n: JsonNode, key: Seq<char>) -> bool {
    match node_get(n, key) {
        None => true,
        Some(JsonNode::Null) => true,
        Some(JsonNode::Bool(_)) => true,
        _ => false,
    }
}

/// The field `key` is absent, null, or a number.
pub open spec fn field_opt_num(n: JsonNode, key: Seq<char>) -> bool {
    match node_get(n, key) {
        None => true,
        Some(JsonNode::Null) => true,
        Some(JsonNode::Num(_)) => true,
        _ => false,
    }
}

/// Checks that the field `key` is present and a string.
fn check_text(v: &JsonValue, key: &str) -> (r: bool)
    ensures
        r == field_is_text(node_of(*v), key@),
{
    match v.get(key) {
        Some(f) => match f {
            JsonValue::Text(_) => true,
            _ => false,
        },
        None => false,
    }
}

/// Checks that the field `key` is present and a boolean.
fn check_bool(v: &JsonValue, key: &str) -> (r: bool)
    ensures
        r == field_is_bool(node_of(*v), key@),
{
    match v.get(key) {
        Some(f) => match f {
            JsonValue::Bool(_) => true,
            _ => false,
        },
        None => false,
    }
}

/// Checks that the field `key` is present and a number.
fn check_num(v: &JsonValue, key: &str) -> (r: bool)
    ensures
        r == field_is_num(node_of(*v), key@),
{
    match v.get(key) {
        Some(f) => match f {
            JsonValue::Num(_) => true,
            _ => false,
        },
        None => false,
    }
}

/// Checks that the field `key` is present and an integer between `lo` and
/// `hi`.
fn check_int(v: &JsonValue, key: &str, lo: i64, hi: i64) -> (r: bool)
    ensures
        r == field_is_int(node_of(*v), key@, lo as int, hi as int),
{
    match v.get(key) {
        Some(f) => match f {
            JsonValue::Num(raw) => num_text_in_range(raw.as_str(), lo, hi),
            _ => false,
        },
        None => false,
    }
}

/// Checks that the field `key` is absent, null, or a string.
fn check_opt_text(v: &JsonValue, key: &str) -> (r: bool)
    ensures
        r == field_opt_text(node_of(*v), key@),
{
    match v.get(key) {
        Some(f) => match f {
            JsonValue::Text(_) => true,
            JsonValue::Null => true,
            _ => false,
        },
        None => true,
    }
}

/// Checks that the field `key` is absent, null, or a boolean.
fn check_opt_bool(v: &JsonValue, key: &str) -> (r: bool)
    ensures
        r == field_opt_bool(node_of(*v), key@),
{
    match v.get(key) {
        Some(f) => match f {
            JsonValue::Bool(_) => true,
            JsonValue::Null => true,
            _ => false,
        },
        None => true,
    }
}

/// Checks that the field `key` is absent, null, or a number.
fn check_opt_num(v: &JsonValue, key: &str) -> (r: bool)
    ensures
        r == field_opt_num(node_of(*v), key@),
{
    match v.get(key) {
        Some(f) => match f {
            JsonValue::Num(_) => true,
            JsonValue::Null => true,
            _ => false,
        },
        None => true,
    }
}

/// The shape of a migration-state record: how long the pool took to migrate,
/// how many makers it saw, when it migrated, and its volume.
pub open spec fn wf_migration_state(n: JsonNode) -> bool {
    &&& n is Obj
    &&& field_is_int(n, "durationMinutes"@, i32::MIN as int, i32::MAX as int)
    &&& field_is_int(n, "makers"@, i32::MIN as int, i32::MAX as int)
    &&& field_is_int(n, "migrationTimestamp"@, i64::MIN as int, i64::MAX as int)
    &&& field_is_num(n, "volume"@)
}

/// The field `key` is absent, null, or a well-formed migration state.
pub open spec fn field_opt_migration(n: JsonNode, key: Seq<char>) -> bool {
    match node_get(n, key) {
        None => true,
        Some(JsonNode::Null) => true,
        Some(m) => wf_migration_state(m),
    }
}

/// The shape of a token-pair record, as the token and migration feeds
/// deliver it.
pub open spec fn wf_token_pair(n: JsonNode) -> bool {
    &&& n is Obj
    &&& field_is_int(n, "buyTxnCount"@, i32::MIN as int, i32::MAX as int)
    &&& field_is_int(n, "chainId"@, i32::MIN as int, i32::MAX as int)
    &&& field_is_text(n, "contractCreator"@)
    &&& field_is_int(n, "createdTimestamp"@, i64::MIN as int, i64::MAX as int)
    &&& field_is_num(n, "initialAssetLiquidity"@)
    &&& field_is_num(n, "initialUsdLiquidity"@)
    &&& field_is_bool(n, "lpBurned"@)
    &&& field_is_text(n, "lpCreator"@)
    &&& field_is_text(n, "marketId"@)
    &&& field_is_text(n, "name"@)
    &&& field_is_num(n, "pooledAsset"@)
    &&& field_is_num(n, "pooledToken"@)
    &&& field_is_num(n, "priceChangePercent"@)
    &&& field_is_int(n, "sellTxnCount"@, i32::MIN as int, i32::MAX as int)
    &&& field_is_text(n, "symbol"@)
    &&& field_is_num(n, "tokenLiquidityAsset"@)
    &&& field_is_num(n, "tokenLiquidityUsd"@)
    &&& field_is_num(n, "tokenMarketCapAsset"@)
    &&& field_is_num(n, "tokenMarketCapUsd"@)
    &&& field_is_text(n, "tokenMint"@)
    &&& field_is_num(n, "tokenPriceAsset"@)
    &&& field_is_num(n, "tokenPriceUsd"@)
    &&& field_is_text(n, "tokenType"@)
    &&& field_is_num(n, "top10HoldingPercent"@)
    &&& field_is_num(n, "totalSupply"@)
    &&& field_is_int(n, "transactionCount"@, i32::MIN as int, i32::MAX as int)
    &&& field_is_num(n, "volumeAsset"@)
    &&& field_is_num(n, "volumeUsd"@)
    &&& field_opt_bool(n, "abused"@)
    &&& field_opt_num(n, "bondingCurvePercentage"@)
    &&& field_opt_text(n, "description"@)
    &&& field_opt_bool(n, "freezeAuthority"@)
    &&& field_opt_text(n, "image"@)
    &&& field_opt_bool(n, "isMigrated"@)
    &&& field_opt_text(n, "metadataUri"@)
    &&& field_opt_text(n, "migratedMarketId"@)
    &&& field_opt_migration(n, "migrationState"@)
    &&& field_opt_bool(n, "mintAuthority"@)
    &&& field_opt_text(n, "telegram"@)
    &&& field_opt_text(n, "twitter"@)
    &&& field_opt_text(n, "website"@)
}

/// The shape of a chain-action record, as the wallet feed delivers it.
pub open spec fn wf_chain_action(n: JsonNode) -> bool {
    &&& n is Obj
    &&& field_is_text(n, "signer"@)
    &&& field_is_text(n, "transactionId"@)
    &&& field_is_text(n, "marketId"@)
    &&& field_is_text(n, "actionType"@)
    &&& field_is_num(n, "tokenAmount"@)
    &&& field_is_num(n, "assetAmount"@)
    &&& field_is_num(n, "tokenPriceUsd"@)
    &&& field_is_num(n, "tokenPriceAsset"@)
    &&& field_opt_num(n, "swapTotalUsd"@)
    &&& field_is_num(n, "tokenMarketCapAsset"@)
    &&& field_is_num(n, "tokenMarketCapUsd"@)
    &&& field_is_num(n, "tokenLiquidityAsset"@)
    &&& field_is_num(n, "tokenLiquidityUsd"@)
    &&& field_is_num(n, "pooledToken"@)
    &&& field_is_num(n, "pooledAsset"@)
    &&& field_is_int(n, "actionTimestamp"@, i64::MIN as int, i64::MAX as int)
    &&& field_opt_text(n, "tokenAccount"@)
    &&& field_opt_text(n, "tokenMint"@)
    &&& field_opt_num(n, "swapTotalAsset"@)
    &&& field_opt_num(n, "bondingCurvePercentage"@)
    &&& field_opt_text(n, "botUsed"@)
}

/// Checks a value against the migration-state shape.
fn check_migration_state(v: &JsonValue) -> (r: bool)
    ensures
        r == wf_migration_state(node_of(*v)),
{
    let is_obj = match v {
        JsonValue::Obj(_) => true,
        _ => false,
    };
    is_obj && check_int(v, "durationMinutes", i32::MIN as i64, i32::MAX as i64) && check_int(
        v,
        "makers",
        i32::MIN as i64,
        i32::MAX as i64,
    ) && check_int(v, "migrationTimestamp", i64::MIN, i64::MAX) && check_num(v, "volume")
}

/// Checks the optional migration-state field.
fn check_opt_migration(v: &JsonValue, key: &str) -> (r: bool)
    ensures
        r == field_opt_migration(node_of(*v), key@),
{
    match v.get(key) {
        Some(f) => match f {
            JsonValue::Null => true,
            _ => check_migration_state(f),
        },
        None => true,
    }
}

/// Checks a value against the token-pair shape.
pub fn check_token_pair(v: &JsonValue) -> (r: bool)
    ensures
        r == wf_token_pair(node_of(*v)),
{
    let is_obj = match v {
        JsonValue::Obj(_) => true,
        _ => false,
    };
    is_obj && check_int(v, "buyTxnCount", i32::MIN as i64, i32::MAX as i64) && check_int(
        v,
        "chainId",
        i32::MIN as i64,
        i32::MAX as i64,
    ) && check_text(v, "contractCreator") && check_int(v, "createdTimestamp", i64::MIN, i64::MAX)
        && check_num(v, "initialAssetLiquidity") && check_num(v, "initialUsdLiquidity")
        && check_bool(v, "lpBurned") && check_text(v, "lpCreator") && check_text(v, "marketId")
        && check_text(v, "name") && check_num(v, "pooledAsset") && check_num(v, "pooledToken")
        && check_num(v, "priceChangePercent") && check_int(
        v,
        "sellTxnCount",
        i32::MIN as i64,
        i32::MAX as i64,
    ) && check_text(v, "symbol") && check_num(v, "tokenLiquidityAsset") && check_num(
        v,
        "tokenLiquidityUsd",
    ) && check_num(v, "tokenMarketCapAsset") && check_num(v, "tokenMarketCapUsd") && check_text(
        v,
        "tokenMint",
    ) && check_num(v, "tokenPriceAsset") && check_num(v, "tokenPriceUsd") && check_text(
        v,
        "tokenType",
    ) && check_num(v, "top10HoldingPercent") && check_num(v, "totalSupply") && check_int(
        v,
        "transactionCount",
        i32::MIN as i64,
        i32::MAX as i64,
    ) && check_num(v, "volumeAsset") && check_num(v, "volumeUsd") && check_opt_bool(v, "abused")
        && check_opt_num(v, "bondingCurvePercentage") && check_opt_text(v, "description")
        && check_opt_bool(v, "freezeAuthority") && check_opt_text(v, "image") && check_opt_bool(
        v,
        "isMigrated",
    ) && check_opt_text(v, "metadataUri") && check_opt_text(v, "migratedMarketId")
        && check_opt_migration(v, "migrationState") && check_opt_bool(v, "mintAuthority")
        && check_opt_text(v, "telegram") && check_opt_text(v, "twitter") && check_opt_text(
        v,
        "website",
    )
}

/// Checks a value against the chain-action shape.
pub fn check_chain_action(v: &JsonValue) -> (r: bool)
    ensures
        r == wf_chain_action(node_of(*v)),
{
    let is_obj = match v {
        JsonValue::Obj(_) => true,
        _ => false,
    };
    is_obj && check_text(v, "signer") && check_text(v, "transactionId") && check_text(
        v,
        "marketId",
    ) && check_text(v, "actionType") && check_num(v, "tokenAmount") && check_num(v, "assetAmount")
        && check_num(v, "tokenPriceUsd") && check_num(v, "tokenPriceAsset") && check_opt_num(
        v,
        "swapTotalUsd",
    ) && check_num(v, "tokenMarketCapAsset") && check_num(
        v,
        "tokenMarketCapUsd",
    ) && check_num(v, "tokenLiquidityAsset") && check_num(v, "tokenLiquidityUsd") && check_num(
        v,
        "pooledToken",
    ) && check_num(v, "pooledAsset") && check_int(v, "actionTimestamp", i64::MIN, i64::MAX)
        && check_opt_text(v, "tokenAccount") && check_opt_text(v, "tokenMint") && check_opt_num(
        v,
        "swapTotalAsset",
    ) && check_opt_num(v, "bondingCurvePercentage") && check_opt_text(v, "botUsed")
}

/// Whether a value has the shape the given feed delivers.
pub open spec fn spec_inbound_ok(feed: FeedType, n: JsonNode) -> bool {
    match feed {
        FeedType::WalletEvents => wf_chain_action(n),
        FeedType::TokenEvents => wf_token_pair(n),
        FeedType::MigrationEvents => wf_token_pair(n),
    }
}

/// The event a received text frame yields on the given feed: its JSON
/// reading, when that reading has the feed's shape; nothing otherwise.
pub open spec fn spec_frame_event(feed: FeedType, s: Seq<char>) -> Option<JsonNode> {
    match sp_doc(s) {
        Some(n) => if spec_inbound_ok(feed, n) {
            Some(n)
        } else {
            None
        },
        None => None,
    }
}

/// Converts one received text frame into the event the given feed delivers,
/// or nothing when the frame is malformed for that feed.
pub fn frame_event(feed: &FeedType, text: &str) -> (r: Option<JsonValue>)
    ensures
        match r {
            Some(v) => spec_frame_event(*feed, text@) == Some(node_of(v)),
            None => spec_frame_event(*feed, text@) is None,
        },
{
    match parse_json(text) {
        Some(v) => {
            let ok = match feed {
                FeedType::WalletEvents => check_chain_action(&v),
                _ => check_token_pair(&v),
            };
            if ok {
                Some(v)
            } else {
                None
            }
        },
        None => None,
    }
}

} // verus!
