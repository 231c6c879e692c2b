//! The typed REST resources this library models directly — token metadata
//! and token symbol — and the filter set of the token-pairs listing, with
//! its translation to query parameters.
//!
//! Numeric filter bounds that the service reads as decimals (liquidity,
//! market cap, volume) are carried as their decimal text, so no floating
//! point enters the library; the caller formats them.

use vstd::prelude::*;
use crate::json::{JsonValue, JsonNode, node_of, node_get};
use crate::inbound::{field_is_text, field_opt_text};
use crate::text::{
    int_text, int_string, int_of_num_text, num_text_value, bool_text, bool_string,
    string_from_chars,
};
use crate::protocol::push_str;

verus! {

/// A token's descriptive metadata.
pub struct TokenMetadata {
    pub image: Option<String>,
    pub name: String,
    pub symbol: String,
    pub telegram: Option<String>,
    pub twitter: Option<String>,
    pub website: Option<String>,
}

/// A token's ticker symbol.
pub struct TokenSymbol {
    pub symbol: String,
}

/// The shape of a token-metadata record.
pub open spec fn wf_token_metadata(n: JsonNode) -> bool {
    &&& field_is_text(n, "name"@)
    &&& field_is_text(n, "symbol"@)
    &&& field_opt_text(n, "image"@)
    &&& field_opt_text(n, "telegram"@)
    &&& field_opt_text(n, "twitter"@)
    &&& field_opt_text(n, "website"@)
}

/// An optional field and an optional string agree: both absent, or a string
/// field carrying exactly that text.
pub open spec fn opt_text_field_is(n: JsonNode, key: Seq<char>, v: Option<String>) -> bool {
    match node_get(n, key) {
        Some(JsonNode::Text(t)) => v matches Some(x) && x@ == t,
        Some(JsonNode::Null) => v is None,
        None => v is None,
        _ => false,
    }
}

/// The record `md` carries exactly the fields of `n`.
pub open spec fn metadata_matches(n: JsonNode, md: TokenMetadata) -> bool {
    &&& node_get(n, "name"@) == Some(JsonNode::Text(md.name@))
    &&& node_get(n, "symbol"@) == Some(JsonNode::Text(md.symbol@))
    &&& opt_text_field_is(n, "image"@, md.image)
    &&& opt_text_field_is(n, "telegram"@, md.telegram)
    &&& opt_text_field_is(n, "twitter"@, md.twitter)
    &&& opt_text_field_is(n, "website"@, md.website)
}

/// Reads an optional string field: absent or null is an absent value, a
/// string is its text, anything else is ill-formed.
fn read_opt_text(v: &JsonValue, key: &str) -> (r: Option<Option<String>>)
    ensures
        match r {
            Some(o) => field_opt_text(node_of(*v), key@) && opt_text_field_is(
                node_of(*v),
                key@,
                o,
            ),
            None => !field_opt_text(node_of(*v), key@),
        },
{
    match v.get(key) {
        None => Some(None),
        Some(f) => match f {
            JsonValue::Null => Some(None),
            JsonValue::Text(t) => Some(Some(t.clone())),
            _ => None,
        },
    }
}

/// Reads a required string field.
fn read_text(v: &JsonValue, key: &str) -> (r: Option<String>)
    ensures
        match r {
            Some(t) => node_get(node_of(*v), key@) == Some(JsonNode::Text(t@)),
            None => !field_is_text(node_of(*v), key@),
        },
{
    match v.get(key) {
        None => None,
        Some(f) => match f.as_text() {
            Some(t) => Some(t.clone()),
            None => None,
        },
    }
}

impl TokenMetadata {
    /// Reads a token-metadata record out of a JSON value: its fields when
    /// the value has the record's shape, nothing otherwise.
    pub fn from_json(v: &JsonValue) -> (r: Option<TokenMetadata>)
        ensures
            match r {
                Some(md) => wf_token_metadata(node_of(*v)) && metadata_matches(node_of(*v), md),
                None => !wf_token_metadata(node_of(*v)),
            },
    {
        let name = match read_text(v, "name") {
            Some(t) => t,
            None => {
                return None;
            },
        };
        let symbol = match read_text(v, "symbol") {
            Some(t) => t,
            None => {
                return None;
            },
        };
        let image = match read_opt_text(v, "image") {
            Some(o) => o,
            None => {
                return None;
            },
        };
        let telegram = match read_opt_text(v, "telegram") {
            Some(o) => o,
            None => {
                return None;
            },
        };
        let twitter = match read_opt_text(v, "twitter") {
            Some(o) => o,
            None => {
                return None;
            },
        };
        let website = match read_opt_text(v, "website") {
            Some(o) => o,
            None => {
                return None;
            },
        };
        Some(TokenMetadata { image, name, symbol, telegram, twitter, website })
    }
}

impl TokenSymbol {
    /// Reads a token-symbol record out of a JSON value.
    pub fn from_json(v: &JsonValue) -> (r: Option<TokenSymbol>)
        ensures
            match r {
                Some(ts) => node_get(node_of(*v), "symbol"@) == Some(JsonNode::Text(ts.symbol@)),
                None => !field_is_text(node_of(*v), "symbol"@),
            },
    {
        match read_text(v, "symbol") {
            Some(t) => Some(TokenSymbol { symbol: t }),
            None => None,
        }
    }
}

/// The shape of a token-holders payload: a nested list of holders next to a
/// sibling count that fits a signed machine word.
pub open spec fn wf_token_holders(n: JsonNode) -> bool {
    &&& node_get(n, "holders"@) is Some
    &&& (match node_get(n, "total_holders"@) {
        Some(JsonNode::Num(raw)) => (match int_of_num_text(raw) {
            Some(c) => i64::MIN <= c <= i64::MAX,
            None => false,
        }),
        _ => false,
    })
}

/// Splits a token-holders payload into the nested holder list and the
/// sibling total count; nothing when the payload lacks either part.
pub fn split_token_holders(v: &JsonValue) -> (r: Option<(&JsonValue, i64)>)
    ensures
        match r {
            Some(p) => {
                &&& wf_token_holders(node_of(*v))
                &&& node_get(node_of(*v), "holders"@) == Some(node_of(*p.0))
                &&& (node_get(node_of(*v), "total_holders"@) matches Some(JsonNode::Num(raw))
                    && int_of_num_text(raw) == Some(p.1 as int))
            },
            None => !wf_token_holders(node_of(*v)),
        },
{
    let holders = match v.get("holders") {
        Some(h) => h,
        None => {
            return None;
        },
    };
    let count = match v.get("total_holders") {
        Some(f) => match f.as_num_text() {
            Some(raw) => match num_text_value(raw.as_str()) {
                Some(c) => c,
                None => {
                    return None;
                },
            },
            None => {
                return None;
            },
        },
        None => {
            return None;
        },
    };
    Some((holders, count))
}

// ---------------------------------------------------------------------------
// The token-pairs filter set and its query parameters.
// ---------------------------------------------------------------------------

/// The filters of the token-pairs listing; each is sent as a query
/// parameter only when set.
pub struct TokenPairsParams {
    pub at_least_one_social: Option<bool>,
    pub buys_max: Option<i32>,
    pub buys_min: Option<i32>,
    pub chain_ids: Option<Vec<i32>>,
    pub freeze_auth_disabled: Option<bool>,
    pub initial_liquidity_max: Option<String>,
    pub initial_liquidity_min: Option<String>,
    pub interval: Option<String>,
    pub liquidity_max: Option<String>,
    pub liquidity_min: Option<String>,
    pub lp_burned: Option<bool>,
    pub market_cap_max: Option<String>,
    pub market_cap_min: Option<String>,
    pub mint_auth_disabled: Option<bool>,
    pub page: Option<i32>,
    pub sells_max: Option<i32>,
    pub sells_min: Option<i32>,
    pub sorting: Option<String>,
    pub swaps_max: Option<i32>,
    pub swaps_min: Option<i32>,
    pub token_types: Option<Vec<String>>,
    pub top10_holders: Option<bool>,
    pub volume_max: Option<String>,
    pub volume_min: Option<String>,
}

/// Chain identifiers joined with commas: the entries after the first.
pub open spec fn ids_text_rest(v: Seq<i32>) -> Seq<char>
    decreases v.len(),
{
    if v.len() == 0 {
        Seq::empty()
    } else {
        seq![','] + int_text(v[0] as int) + ids_text_rest(v.skip(1))
    }
}

/// Chain identifiers joined with commas.
pub open spec fn ids_text(v: Seq<i32>) -> Seq<char> {
    if v.len() == 0 {
        Seq::empty()
    } else {
        int_text(v[0] as int) + ids_text_rest(v.skip(1))
    }
}

/// Names joined with commas: the entries after the first.
pub open spec fn strs_text_rest(v: Seq<String>) -> Seq<char>
    decreases v.len(),
{
    if v.len() == 0 {
        Seq::empty()
    } else {
        seq![','] + v[0]@ + strs_text_rest(v.skip(1))
    }
}

/// Names joined with commas.
pub open spec fn strs_text(v: Seq<String>) -> Seq<char> {
    if v.len() == 0 {
        Seq::empty()
    } else {
        v[0]@ + strs_text_rest(v.skip(1))
    }
}

/// Writes one chain identifier.
fn fmt_entry(x: i32) -> (r: Vec<char>)
    ensures
        r@ == int_text(x as int),
{
    let s = int_string(x as i64);
    crate::text::chars_of(s.as_str())
}

/// Joins chain identifiers with commas.
fn join_ids(v: &Vec<i32>) -> (r: String)
    ensures
        r@ == ids_text(v@),
{
    let mut out: Vec<char> = Vec::new();
    let n: usize = v.len();
    if n > 0 {
        let mut first = fmt_entry(v[0]);
        out.append(&mut first);
        let mut k: usize = 1;
        while k < n
            invariant
                n == v@.len(),
                1 <= k <= n,
                out@ + ids_text_rest(v@.skip(k as int)) == ids_text(v@),
            decreases n - k,
        {
            let ghost out0 = out@;
            out.push(',');
            let mut piece = fmt_entry(v[k]);
            out.append(&mut piece);
            proof {
                assert(v@.skip(k as int)[0] == v@[k as int]);
                assert(v@.skip(k as int).skip(1) =~= v@.skip(k as int + 1));
                assert(ids_text_rest(v@.skip(k as int)) == seq![','] + int_text(
                    v@[k as int] as int,
                ) + ids_text_rest(v@.skip(k as int + 1)));
                assert(out@ + ids_text_rest(v@.skip(k as int + 1)) =~= out0 + ids_text_rest(
                    v@.skip(k as int),
                ));
            }
            k = k + 1;
        }
        proof {
            assert(v@.skip(n as int) =~= Seq::<i32>::empty());
            assert(out@ + Seq::<char>::empty() =~= out@);
        }
    }
    string_from_chars(&out)
}

/// Joins names with commas.
fn join_strs(v: &Vec<String>) -> (r: String)
    ensures
        r@ == strs_text(v@),
{
    let mut out: Vec<char> = Vec::new();
    let n: usize = v.len();
    if n > 0 {
        push_str(&mut out, v[0].as_str());
        let mut k: usize = 1;
        while k < n
            invariant
                n == v@.len(),
                1 <= k <= n,
                out@ + strs_text_rest(v@.skip(k as int)) == strs_text(v@),
            decreases n - k,
        {
            let ghost out0 = out@;
            out.push(',');
            push_str(&mut out, v[k].as_str());
            proof {
                assert(v@.skip(k as int)[0] == v@[k as int]);
                assert(v@.skip(k as int).skip(1) =~= v@.skip(k as int + 1));
                assert(strs_text_rest(v@.skip(k as int)) == seq![','] + v@[k as int]@
                    + strs_text_rest(v@.skip(k as int + 1)));
                assert(out@ + strs_text_rest(v@.skip(k as int + 1)) =~= out0 + strs_text_rest(
                    v@.skip(k as int),
                ));
            }
            k = k + 1;
        }
        proof {
            assert(v@.skip(n as int) =~= Seq::<String>::empty());
            assert(out@ + Seq::<char>::empty() =~= out@);
        }
    }
    string_from_chars(&out)
}

/// Appends one query parameter.
fn push_pair(out: &mut Vec<(String, String)>, key: &str, val: String)
    ensures
        pairs_of(final(out)@) == pairs_of(old(out)@) + seq![(key@, val@)],
{
    let k = String::from_str(key);
    out.push((k, val));
    proof {
        assert(pairs_of(out@) =~= pairs_of(old(out)@) + seq![(key@, val@)]);
    }
}

/// The views of a parameter list.
pub open spec fn pairs_of(v: Seq<(String, String)>) -> Seq<(Seq<char>, Seq<char>)> {
    Seq::new(
        v.len(),
        |i: int|
            if 0 <= i < v.len() {
                (v[i].0@, v[i].1@)
            } else {
                (Seq::<char>::empty(), Seq::<char>::empty())
            },
    )
}

/// One stretch of the query parameters, in the fixed field order.
pub open spec fn spec_qp_1(p: TokenPairsParams) -> Seq<(Seq<char>, Seq<char>)> {
    let e_at_least_one_social = match p.at_least_one_social {
        Some(b) => seq![("atLeastOneSocial"@, bool_text(b))],
        None => Seq::<(Seq<char>, Seq<char>)>::empty(),
    };
    let e_buys_max = match p.buys_max {
        Some(x) => seq![("buysMax"@, int_text(x as int))],
        None => Seq::<(Seq<char>, Seq<char>)>::empty(),
    };
    let e_buys_min = match p.buys_min {
        Some(x) => seq![("buysMin"@, int_text(x as int))],
        None => Seq::<(Seq<char>, Seq<char>)>::empty(),
    };
    let e_chain_ids = match p.chain_ids {
        Some(v) => seq![("chainIds"@, ids_text(v@))],
        None => Seq::<(Seq<char>, Seq<char>)>::empty(),
    };
    let e_freeze_auth_disabled = match p.freeze_auth_disabled {
        Some(b) => seq![("freezeAuthDisabled"@, bool_text(b))],
        None => Seq::<(Seq<char>, Seq<char>)>::empty(),
    };
    let e_initial_liquidity_max = match p.initial_liquidity_max {
        Some(s) => seq![("initialLiquidityMax"@, s@)],
        None => Seq::<(Seq<char>, Seq<char>)>::empty(),
    };
    e_at_least_one_social + e_buys_max + e_buys_min + e_chain_ids + e_freeze_auth_disabled + e_initial_liquidity_max
}
/// One stretch of the query parameters, in the fixed field order.
pub open spec fn spec_qp_2(p: TokenPairsParams) -> Seq<(Seq<char>, Seq<char>)> {
    let e_initial_liquidity_min = match p.initial_liquidity_min {
        Some(s) => seq![("initialLiquidityMin"@, s@)],
        None => Seq::<(Seq<char>, Seq<char>)>::empty(),
    };
    let e_interval = match p.interval {
        Some(s) => seq![("interval"@, s@)],
        None => Seq::<(Seq<char>, Seq<char>)>::empty(),
    };
    let e_liquidity_max = match p.liquidity_max {
        Some(s) => seq![("liquidityMax"@, s@)],
        None => Seq::<(Seq<char>, Seq<char>)>::empty(),
    };
    let e_liquidity_min = match p.liquidity_min {
        Some(s) => seq![("liquidityMin"@, s@)],
        None => Seq::<(Seq<char>, Seq<char>)>::empty(),
    };
    let e_lp_burned = match p.lp_burned {
        Some(b) => seq![("lpBurned"@, bool_text(b))],
        None => Seq::<(Seq<char>, Seq<char>)>::empty(),
    };
    let e_market_cap_max = match p.market_cap_max {
        Some(s) => seq![("marketCapMax"@, s@)],
        None => Seq::<(Seq<char>, Seq<char>)>::empty(),
    };
    e_initial_liquidity_min + e_interval + e_liquidity_max + e_liquidity_min + e_lp_burned + e_market_cap_max
}
/// One stretch of the query parameters, in the fixed field order.
pub open spec fn spec_qp_3(p: TokenPairsParams) -> Seq<(Seq<char>, Seq<char>)> {
    let e_market_cap_min = match p.market_cap_min {
        Some(s) => seq![("marketCapMin"@, s@)],
        None => Seq::<(Seq<char>, Seq<char>)>::empty(),
    };
    let e_mint_auth_disabled = match p.mint_auth_disabled {
        Some(b) => seq![("mintAuthDisabled"@, bool_text(b))],
        None => Seq::<(Seq<char>, Seq<char>)>::empty(),
    };
    let e_page = match p.page {
        Some(x) => seq![("page"@, int_text(x as int))],
        None => Seq::<(Seq<char>, Seq<char>)>::empty(),
    };
    let e_sells_max = match p.sells_max {
        Some(x) => seq![("sellsMax"@, int_text(x as int))],
        None => Seq::<(Seq<char>, Seq<char>)>::empty(),
    };
    let e_sells_min = match p.sells_min {
        Some(x) => seq![("sellsMin"@, int_text(x as int))],
        None => Seq::<(Seq<char>, Seq<char>)>::empty(),
    };
    let e_sorting = match p.sorting {
        Some(s) => seq![("sorting"@, s@)],
        None => Seq::<(Seq<char>, Seq<char>)>::empty(),
    };
    e_market_cap_min + e_mint_auth_disabled + e_page + e_sells_max + e_sells_min + e_sorting
}
/// One stretch of the query parameters, in the fixed field order.
pub open spec fn spec_qp_4(p: TokenPairsParams) -> Seq<(Seq<char>, Seq<char>)> {
    let e_swaps_max = match p.swaps_max {
        Some(x) => seq![("swapsMax"@, int_text(x as int))],
        None => Seq::<(Seq<char>, Seq<char>)>::empty(),
    };
    let e_swaps_min = match p.swaps_min {
        Some(x) => seq![("swapsMin"@, int_text(x as int))],
        None => Seq::<(Seq<char>, Seq<char>)>::empty(),
    };
    let e_token_types = match p.token_types {
        Some(v) => seq![("tokenTypes"@, strs_text(v@))],
        None => Seq::<(Seq<char>, Seq<char>)>::empty(),
    };
    let e_top10_holders = match p.top10_holders {
        Some(b) => seq![("top10Holders"@, bool_text(b))],
        None => Seq::<(Seq<char>, Seq<char>)>::empty(),
    };
    let e_volume_max = match p.volume_max {
        Some(s) => seq![("volumeMax"@, s@)],
        None => Seq::<(Seq<char>, Seq<char>)>::empty(),
    };
    let e_volume_min = match p.volume_min {
        Some(s) => seq![("volumeMin"@, s@)],
        None => Seq::<(Seq<char>, Seq<char>)>::empty(),
    };
    e_swaps_max + e_swaps_min + e_token_types + e_top10_holders + e_volume_max + e_volume_min
}

/// The query parameters a filter set sends: one name and value per set
/// filter, in the fixed field order.
pub open spec fn spec_query_params(p: TokenPairsParams) -> Seq<(Seq<char>, Seq<char>)> {
    spec_qp_1(p) + spec_qp_2(p) + spec_qp_3(p) + spec_qp_4(p)
}

impl TokenPairsParams {
    /// Writes one stretch of the query parameters.
    #[verifier::rlimit(100)]
    #[verifier::spinoff_prover]
    fn qp_1(&self, out: &mut Vec<(String, String)>)
        ensures
            pairs_of(final(out)@) == pairs_of(old(out)@) + spec_qp_1(*self),
    {
        let ghost mut acc = pairs_of(old(out)@);
        match &self.at_least_one_social {
            Some(b) => {
                push_pair(out, "atLeastOneSocial", String::from_str(bool_string(*b)));
            },
            None => {},
        }
        proof {
            acc = acc + (match &self.at_least_one_social {
                Some(b) => seq![("atLeastOneSocial"@, bool_text(*b))],
                None => Seq::<(Seq<char>, Seq<char>)>::empty(),
            });
            assert(pairs_of(out@) == acc);
        }
        match &self.buys_max {
            Some(x) => {
                push_pair(out, "buysMax", int_string(*x as i64));
            },
            None => {},
        }
        proof {
            acc = acc + (match &self.buys_max {
                Some(x) => seq![("buysMax"@, int_text(*x as int))],
                None => Seq::<(Seq<char>, Seq<char>)>::empty(),
            });
            assert(pairs_of(out@) == acc);
        }
        match &self.buys_min {
            Some(x) => {
                push_pair(out, "buysMin", int_string(*x as i64));
            },
            None => {},
        }
        proof {
            acc = acc + (match &self.buys_min {
                Some(x) => seq![("buysMin"@, int_text(*x as int))],
                None => Seq::<(Seq<char>, Seq<char>)>::empty(),
            });
            assert(pairs_of(out@) == acc);
        }
        match &self.chain_ids {
            Some(v) => {
                push_pair(out, "chainIds", join_ids(v));
            },
            None => {},
        }
        proof {
            acc = acc + (match &self.chain_ids {
                Some(v) => seq![("chainIds"@, ids_text(v@))],
                None => Seq::<(Seq<char>, Seq<char>)>::empty(),
            });
            assert(pairs_of(out@) == acc);
        }
        match &self.freeze_auth_disabled {
            Some(b) => {
                push_pair(out, "freezeAuthDisabled", String::from_str(bool_string(*b)));
            },
            None => {},
        }
        proof {
            acc = acc + (match &self.freeze_auth_disabled {
                Some(b) => seq![("freezeAuthDisabled"@, bool_text(*b))],
                None => Seq::<(Seq<char>, Seq<char>)>::empty(),
            });
            assert(pairs_of(out@) == acc);
        }
        match &self.initial_liquidity_max {
            Some(s) => {
                push_pair(out, "initialLiquidityMax", s.clone());
            },
            None => {},
        }
        proof {
            acc = acc + (match &self.initial_liquidity_max {
                Some(s) => seq![("initialLiquidityMax"@, s@)],
                None => Seq::<(Seq<char>, Seq<char>)>::empty(),
            });
            assert(pairs_of(out@) == acc);
        }
        proof {
            assert(acc == pairs_of(old(out)@) + spec_qp_1(*self)) by {
                assert(acc =~= pairs_of(old(out)@) + spec_qp_1(*self));
            }
        }
    }
    /// Writes one stretch of the query parameters.
    #[verifier::rlimit(100)]
    #[verifier::spinoff_prover]
    fn qp_2(&self, out: &mut Vec<(String, String)>)
        ensures
            pairs_of(final(out)@) == pairs_of(old(out)@) + spec_qp_2(*self),
    {
        let ghost mut acc = pairs_of(old(out)@);
        match &self.initial_liquidity_min {
            Some(s) => {
                push_pair(out, "initialLiquidityMin", s.clone());
            },
            None => {},
        }
        proof {
            acc = acc + (match &self.initial_liquidity_min {
                Some(s) => seq![("initialLiquidityMin"@, s@)],
                None => Seq::<(Seq<char>, Seq<char>)>::empty(),
            });
            assert(pairs_of(out@) == acc);
        }
        match &self.interval {
            Some(s) => {
                push_pair(out, "interval", s.clone());
            },
            None => {},
        }
        proof {
            acc = acc + (match &self.interval {
                Some(s) => seq![("interval"@, s@)],
                None => Seq::<(Seq<char>, Seq<char>)>::empty(),
            });
            assert(pairs_of(out@) == acc);
        }
        match &self.liquidity_max {
            Some(s) => {
                push_pair(out, "liquidityMax", s.clone());
            },
            None => {},
        }
        proof {
            acc = acc + (match &self.liquidity_max {
                Some(s) => seq![("liquidityMax"@, s@)],
                None => Seq::<(Seq<char>, Seq<char>)>::empty(),
            });
            assert(pairs_of(out@) == acc);
        }
        match &self.liquidity_min {
            Some(s) => {
                push_pair(out, "liquidityMin", s.clone());
            },
            None => {},
        }
        proof {
            acc = acc + (match &self.liquidity_min {
                Some(s) => seq![("liquidityMin"@, s@)],
                None => Seq::<(Seq<char>, Seq<char>)>::empty(),
            });
            assert(pairs_of(out@) == acc);
        }
        match &self.lp_burned {
            Some(b) => {
                push_pair(out, "lpBurned", String::from_str(bool_string(*b)));
            },
            None => {},
        }
        proof {
            acc = acc + (match &self.lp_burned {
                Some(b) => seq![("lpBurned"@, bool_text(*b))],
                None => Seq::<(Seq<char>, Seq<char>)>::empty(),
            });
            assert(pairs_of(out@) == acc);
        }
        match &self.market_cap_max {
            Some(s) => {
                push_pair(out, "marketCapMax", s.clone());
            },
            None => {},
        }
        proof {
            acc = acc + (match &self.market_cap_max {
                Some(s) => seq![("marketCapMax"@, s@)],
                None => Seq::<(Seq<char>, Seq<char>)>::empty(),
            });
            assert(pairs_of(out@) == acc);
        }
        proof {
            assert(acc == pairs_of(old(out)@) + spec_qp_2(*self)) by {
                assert(acc =~= pairs_of(old(out)@) + spec_qp_2(*self));
            }
        }
    }
    /// Writes one stretch of the query parameters.
    #[verifier::rlimit(100)]
    #[verifier::spinoff_prover]
    fn qp_3(&self, out: &mut Vec<(String, String)>)
        ensures
            pairs_of(final(out)@) == pairs_of(old(out)@) + spec_qp_3(*self),
    {
        let ghost mut acc = pairs_of(old(out)@);
        match &self.market_cap_min {
            Some(s) => {
                push_pair(out, "marketCapMin", s.clone());
            },
            None => {},
        }
        proof {
            acc = acc + (match &self.market_cap_min {
                Some(s) => seq![("marketCapMin"@, s@)],
                None => Seq::<(Seq<char>, Seq<char>)>::empty(),
            });
            assert(pairs_of(out@) == acc);
        }
        match &self.mint_auth_disabled {
            Some(b) => {
                push_pair(out, "mintAuthDisabled", String::from_str(bool_string(*b)));
            },
            None => {},
        }
        proof {
            acc = acc + (match &self.mint_auth_disabled {
                Some(b) => seq![("mintAuthDisabled"@, bool_text(*b))],
                None => Seq::<(Seq<char>, Seq<char>)>::empty(),
            });
            assert(pairs_of(out@) == acc);
        }
        match &self.page {
            Some(x) => {
                push_pair(out, "page", int_string(*x as i64));
            },
            None => {},
        }
        proof {
            acc = acc + (match &self.page {
                Some(x) => seq![("page"@, int_text(*x as int))],
                None => Seq::<(Seq<char>, Seq<char>)>::empty(),
            });
            assert(pairs_of(out@) == acc);
        }
        match &self.sells_max {
            Some(x) => {
                push_pair(out, "sellsMax", int_string(*x as i64));
            },
            None => {},
        }
        proof {
            acc = acc + (match &self.sells_max {
                Some(x) => seq![("sellsMax"@, int_text(*x as int))],
                None => Seq::<(Seq<char>, Seq<char>)>::empty(),
            });
            assert(pairs_of(out@) == acc);
        }
        match &self.sells_min {
            Some(x) => {
                push_pair(out, "sellsMin", int_string(*x as i64));
            },
            None => {},
        }
        proof {
            acc = acc + (match &self.sells_min {
                Some(x) => seq![("sellsMin"@, int_text(*x as int))],
                None => Seq::<(Seq<char>, Seq<char>)>::empty(),
            });
            assert(pairs_of(out@) == acc);
        }
        match &self.sorting {
            Some(s) => {
                push_pair(out, "sorting", s.clone());
            },
            None => {},
        }
        proof {
            acc = acc + (match &self.sorting {
                Some(s) => seq![("sorting"@, s@)],
                None => Seq::<(Seq<char>, Seq<char>)>::empty(),
            });
            assert(pairs_of(out@) == acc);
        }
        proof {
            assert(acc == pairs_of(old(out)@) + spec_qp_3(*self)) by {
                assert(acc =~= pairs_of(old(out)@) + spec_qp_3(*self));
            }
        }
    }
    /// Writes one stretch of the query parameters.
    #[verifier::rlimit(100)]
    #[verifier::spinoff_prover]
    fn qp_4(&self, out: &mut Vec<(String, String)>)
        ensures
            pairs_of(final(out)@) == pairs_of(old(out)@) + spec_qp_4(*self),
    {
        let ghost mut acc = pairs_of(old(out)@);
        match &self.swaps_max {
            Some(x) => {
                push_pair(out, "swapsMax", int_string(*x as i64));
            },
            None => {},
        }
        proof {
            acc = acc + (match &self.swaps_max {
                Some(x) => seq![("swapsMax"@, int_text(*x as int))],
                None => Seq::<(Seq<char>, Seq<char>)>::empty(),
            });
            assert(pairs_of(out@) == acc);
        }
        match &self.swaps_min {
            Some(x) => {
                push_pair(out, "swapsMin", int_string(*x as i64));
            },
            None => {},
        }
        proof {
            acc = acc + (match &self.swaps_min {
                Some(x) => seq![("swapsMin"@, int_text(*x as int))],
                None => Seq::<(Seq<char>, Seq<char>)>::empty(),
            });
            assert(pairs_of(out@) == acc);
        }
        match &self.token_types {
            Some(v) => {
                push_pair(out, "tokenTypes", join_strs(v));
            },
            None => {},
        }
        proof {
            acc = acc + (match &self.token_types {
                Some(v) => seq![("tokenTypes"@, strs_text(v@))],
                None => Seq::<(Seq<char>, Seq<char>)>::empty(),
            });
            assert(pairs_of(out@) == acc);
        }
        match &self.top10_holders {
            Some(b) => {
                push_pair(out, "top10Holders", String::from_str(bool_string(*b)));
            },
            None => {},
        }
        proof {
            acc = acc + (match &self.top10_holders {
                Some(b) => seq![("top10Holders"@, bool_text(*b))],
                None => Seq::<(Seq<char>, Seq<char>)>::empty(),
            });
            assert(pairs_of(out@) == acc);
        }
        match &self.volume_max {
            Some(s) => {
                push_pair(out, "volumeMax", s.clone());
            },
            None => {},
        }
        proof {
            acc = acc + (match &self.volume_max {
                Some(s) => seq![("volumeMax"@, s@)],
                None => Seq::<(Seq<char>, Seq<char>)>::empty(),
            });
            assert(pairs_of(out@) == acc);
        }
        match &self.volume_min {
            Some(s) => {
                push_pair(out, "volumeMin", s.clone());
            },
            None => {},
        }
        proof {
            acc = acc + (match &self.volume_min {
                Some(s) => seq![("volumeMin"@, s@)],
                None => Seq::<(Seq<char>, Seq<char>)>::empty(),
            });
            assert(pairs_of(out@) == acc);
        }
        proof {
            assert(acc == pairs_of(old(out)@) + spec_qp_4(*self)) by {
                assert(acc =~= pairs_of(old(out)@) + spec_qp_4(*self));
            }
        }
    }

    /// Writes the set filters as query parameters, in the fixed field order.
    pub fn query_params(&self) -> (r: Vec<(String, String)>)
        ensures
            pairs_of(r@) == spec_query_params(*self),
    {
        let mut out: Vec<(String, String)> = Vec::new();
        proof {
            assert(pairs_of(out@) =~= Seq::<(Seq<char>, Seq<char>)>::empty());
        }
        self.qp_1(&mut out);
        self.qp_2(&mut out);
        self.qp_3(&mut out);
        self.qp_4(&mut out);
        proof {
            assert(pairs_of(out@) =~= spec_query_params(*self));
        }
        out
    }
}

impl Default for TokenPairsParams {
    /// The empty filter set: nothing is sent.
    fn default() -> (d: TokenPairsParams)
        ensures
            spec_query_params(d) == Seq::<(Seq<char>, Seq<char>)>::empty(),
            d.at_least_one_social is None,
            d.buys_max is None,
            d.buys_min is None,
            d.chain_ids is None,
            d.freeze_auth_disabled is None,
            d.initial_liquidity_max is None,
            d.initial_liquidity_min is None,
            d.interval is None,
            d.liquidity_max is None,
            d.liquidity_min is None,
            d.lp_burned is None,
            d.market_cap_max is None,
            d.market_cap_min is None,
            d.mint_auth_disabled is None,
            d.page is None,
            d.sells_max is None,
            d.sells_min is None,
            d.sorting is None,
            d.swaps_max is None,
            d.swaps_min is None,
            d.token_types is None,
            d.top10_holders is None,
            d.volume_max is None,
            d.volume_min is None,
    {
        let d = TokenPairsParams {
            at_least_one_social: None,
            buys_max: None,
            buys_min: None,
            chain_ids: None,
            freeze_auth_disabled: None,
            initial_liquidity_max: None,
            initial_liquidity_min: None,
            interval: None,
            liquidity_max: None,
            liquidity_min: None,
            lp_burned: None,
            market_cap_max: None,
            market_cap_min: None,
            mint_auth_disabled: None,
            page: None,
            sells_max: None,
            sells_min: None,
            sorting: None,
            swaps_max: None,
            swaps_min: None,
            token_types: None,
            top10_holders: None,
            volume_max: None,
            volume_min: None
        };
        proof {
            assert(spec_query_params(d) =~= Seq::<(Seq<char>, Seq<char>)>::empty());
        }
        d
    }
}

} // verus!
