//! The HTTP gateway's response handling: the `{status, message, data}`
//! envelope every REST response uses, the mapping from non-success status
//! codes to the error taxonomy, and the reading of the `Retry-After` header.
//!
//! The transport itself (URL construction, header injection, the request)
//! is a boundary concern and lives outside this library; it hands the status
//! code, the `Retry-After` header and the body text to `process_response`.

use vstd::prelude::*;
use crate::errors::VyperError;
use crate::json::{JsonValue, JsonNode, node_of, node_get, sp_doc, parse_json, digit_count};
use crate::text::{all_digits, dec_val, pow10, chars_of, digit_char};

verus! {

/// The `{status, message, data}` wrapper every REST response uses.
pub struct APIResponse<T> {
    pub status: String,
    pub message: String,
    pub data: T,
}

/// The reading of a response body as an envelope: its status text, its
/// message text, and its data, when the body is JSON with those three
/// fields.
pub open spec fn spec_envelope(s: Seq<char>) -> Option<(Seq<char>, Seq<char>, JsonNode)> {
    match sp_doc(s) {
        Some(n) => match (node_get(n, "status"@), node_get(n, "message"@), node_get(n, "data"@)) {
            (Some(JsonNode::Text(st)), Some(JsonNode::Text(msg)), Some(d)) => Some((st, msg, d)),
            _ => None,
        },
        None => None,
    }
}

/// Reads a response body as an envelope.
pub fn parse_envelope(body: &str) -> (r: Option<APIResponse<JsonValue>>)
    ensures
        match r {
            Some(env) => spec_envelope(body@) == Some(
                (env.status@, env.message@, node_of(env.data)),
            ),
            None => spec_envelope(body@) is None,
        },
{
    match parse_json(body) {
        Some(v) => {
            let status = match v.get("status") {
                Some(f) => match f.as_text() {
                    Some(t) => t.clone(),
                    None => {
                        return None;
                    },
                },
                None => {
                    return None;
                },
            };
            let message = match v.get("message") {
                Some(f) => match f.as_text() {
                    Some(t) => t.clone(),
                    None => {
                        return None;
                    },
                },
                None => {
                    return None;
                },
            };
            let data = match v.get("data") {
                Some(f) => f.clone(),
                None => {
                    return None;
                },
            };
            Some(APIResponse { status, message, data })
        },
        None => None,
    }
}

/// The value of a `Retry-After` header in milliseconds: a decimal number of
/// seconds, possibly fractional. Fractions beyond the millisecond are
/// dropped; an integer part wider than fifteen digits, or anything but
/// digits and one point, reads as nothing.
pub open spec fn spec_retry_after_millis(s: Seq<char>) -> Option<nat> {
    let a = digit_count(s);
    if a == 0 || a > 15 {
        None
    } else if a == s.len() {
        Some(dec_val(s.take(a as int)) * 1000)
    } else if s[a as int] == '.' {
        let f = s.skip(a + 1 as int);
        if f.len() == 0 || !all_digits(f) {
            None
        } else {
            let m: nat = if f.len() < 3 {
                f.len()
            } else {
                3
            };
            Some(dec_val(s.take(a as int)) * 1000 + dec_val(f.take(m as int)) * pow10(
                (3 - m) as nat,
            ))
        }
    } else {
        None
    }
}

/// Reads a `Retry-After` header value as milliseconds.
pub fn parse_retry_after(h: &str) -> (r: Option<u64>)
    ensures
        match r {
            Some(v) => spec_retry_after_millis(h@) == Some(v as nat),
            None => spec_retry_after_millis(h@) is None,
        },
{
    let s = chars_of(h);
    let n: usize = s.len();
    let mut a: usize = 0;
    proof {
        assert(h@.skip(0) =~= h@);
    }
    while a < n && digit_char(s[a])
        invariant
            a <= n == s@.len(),
            s@ == h@,
            digit_count(h@) == a + digit_count(h@.skip(a as int)),
            forall|i: int| 0 <= i < a ==> crate::text::is_digit(#[trigger] s@[i]),
        decreases n - a,
    {
        proof {
            assert(h@.skip(a as int)[0] == h@[a as int]);
            assert(h@.skip(a as int).skip(1) =~= h@.skip(a as int + 1));
        }
        a = a + 1;
    }
    proof {
        if a == n {
            assert(h@.skip(a as int).len() == 0);
        } else {
            assert(h@.skip(a as int)[0] == h@[a as int]);
        }
        assert(digit_count(h@) == a);
    }
    if a == 0 || a > 15 {
        return None;
    }
    let ghost ipart = h@.take(a as int);
    proof {
        assert(forall|i: int| 0 <= i < a ==> ipart[i] == h@[i]);
        assert(all_digits(ipart));
        crate::text::lemma_dec_val_upper(ipart);
        crate::text::lemma_pow10_mono(ipart.len(), 19);
        crate::text::lemma_pow10_19();
        crate::text::lemma_pow10_mono(ipart.len(), 15);
        assert(pow10(15) <= pow10(19)) by {
            crate::text::lemma_pow10_mono(15, 19);
        }
        assert(pow10(15) == 1000000000000000) by {
            reveal_with_fuel(pow10, 17);
        }
    }
    let whole = crate::text::digits_value(&s, 0, a);
    if a == n {
        return Some(whole * 1000);
    }
    if s[a] != '.' {
        return None;
    }
    if a + 1 == n {
        return None;
    }
    let mut k: usize = a + 1;
    while k < n
        invariant
            a + 1 <= k <= n == s@.len(),
            s@ == h@,
            1 <= a <= 15,
            a < n,
            digit_count(h@) == a,
            h@[a as int] == '.',
            forall|i: int| a + 1 <= i < k ==> crate::text::is_digit(#[trigger] s@[i]),
        decreases n - k,
    {
        if !digit_char(s[k]) {
            proof {
                assert(h@.skip(a + 1 as int)[k - a - 1] == h@[k as int]);
            }
            return None;
        }
        k = k + 1;
    }
    let ghost frac = h@.skip(a + 1 as int);
    proof {
        assert(forall|i: int| 0 <= i < frac.len() ==> frac[i] == h@[a + 1 + i]);
        assert(all_digits(frac));
    }
    let flen: usize = n - (a + 1);
    let m: usize = if flen < 3 {
        flen
    } else {
        3
    };
    let ghost f3 = frac.take(m as int);
    proof {
        assert(forall|i: int| 0 <= i < m ==> f3[i] == h@[a + 1 + i]);
        assert(all_digits(f3));
        crate::text::lemma_dec_val_upper(f3);
        assert(pow10(3) == 1000) by {
            reveal_with_fuel(pow10, 5);
        }
        crate::text::lemma_pow10_mono(f3.len(), 3);
        assert(h@.skip(a + 1 as int).take(m as int) =~= h@.subrange(
            a + 1 as int,
            a + 1 + m as int,
        ));
    }
    let fval = crate::text::digits_value(&s, a + 1, a + 1 + m);
    let scale: u64 = if m == 1 {
        100
    } else if m == 2 {
        10
    } else if m == 3 {
        1
    } else {
        1000
    };
    proof {
        assert(pow10(0) == 1);
        assert(pow10(1) == 10) by {
            reveal_with_fuel(pow10, 3);
        }
        assert(pow10(2) == 100) by {
            reveal_with_fuel(pow10, 4);
        }
        assert(whole < 1000000000000000);
        assert(fval < 1000);
        assert(scale <= 1000);
        assert(whole * 1000 <= 1000000000000000000) by (nonlinear_arith)
            requires
                whole < 1000000000000000,
        ;
        assert(fval * scale <= 1000000) by (nonlinear_arith)
            requires
                fval < 1000 && scale <= 1000,
        ;
    }
    Some(whole * 1000 + fval * scale)
}

/// Whether an HTTP status code reports success.
pub open spec fn spec_is_success(status: u16) -> bool {
    200 <= status < 300
}

/// Holds when `e` is the failure a non-success `status` with the envelope
/// message `msg` and the given `Retry-After` reading maps to: 401 an
/// authentication failure, 429 a rate-limit failure carrying the delay,
/// 500 through 599 a server failure, anything else the generic failure
/// carrying the code.
pub open spec fn is_status_error(
    e: VyperError,
    status: u16,
    msg: Seq<char>,
    retry: Option<nat>,
) -> bool {
    if status == 401 {
        e matches VyperError::AuthenticationError(m) && m@ == msg
    } else if status == 429 {
        e matches VyperError::RateLimitError { message, retry_after_millis } && message@ == msg
            && (match retry {
            Some(v) => retry_after_millis == Some(v as u64),
            None => retry_after_millis is None,
        })
    } else if 500 <= status <= 599 {
        e matches VyperError::ServerError(m) && m@ == msg
    } else {
        e matches VyperError::ApiError(m, c) && m@ == msg && c == status
    }
}

/// The reading of an optional `Retry-After` header.
pub open spec fn spec_retry_of(h: Option<String>) -> Option<nat> {
    match h {
        Some(t) => spec_retry_after_millis(t@),
        None => None,
    }
}

/// Maps a non-success status code and its envelope message to the failure
/// it stands for.
pub fn classify_error(status: u16, message: String, retry_after: Option<String>) -> (e:
    VyperError)
    ensures
        is_status_error(e, status, message@, spec_retry_of(retry_after)),
{
    if status == 401 {
        VyperError::AuthenticationError(message)
    } else if status == 429 {
        let retry_after_millis = match retry_after {
            Some(h) => parse_retry_after(h.as_str()),
            None => None,
        };
        VyperError::RateLimitError { message, retry_after_millis }
    } else if 500 <= status && status <= 599 {
        VyperError::ServerError(message)
    } else {
        VyperError::ApiError(message, status)
    }
}

/// Handles one HTTP response, already read to its parts: on a success
/// status, the envelope's data; on a non-success status, the failure its
/// code and envelope message map to; on a body that does not read as an
/// envelope, a deserialization failure.
pub fn process_response(status: u16, retry_after: Option<String>, body: &str) -> (r: Result<
    JsonValue,
    VyperError,
>)
    ensures
        spec_is_success(status) ==> (match spec_envelope(body@) {
            Some(env) => r matches Ok(v) && node_of(v) == env.2,
            None => r matches Err(e) && e is DeserializeError,
        }),
        !spec_is_success(status) ==> (r matches Err(e) && (match spec_envelope(body@) {
            Some(env) => is_status_error(e, status, env.1, spec_retry_of(retry_after)),
            None => e is DeserializeError,
        })),
{
    match parse_envelope(body) {
        Some(env) => {
            if 200 <= status && status < 300 {
                Ok(env.data)
            } else {
                Err(classify_error(status, env.message, retry_after))
            }
        },
        None => Err(
            VyperError::DeserializeError(
                String::from_str("response body is not a response envelope"),
            ),
        ),
    }
}

} // verus!
