//! The JSON subset this client speaks on the wire: inbound frames and REST
//! envelopes are read with this module, and the subscription codec shares its
//! string-escape rules.
//!
//! Numbers are kept as their raw literal text, so no floating point enters
//! the library; callers interpret the text as they need. Strings take the
//! standard escapes, `\uXXXX` included — astral characters as surrogate
//! pairs, a lone surrogate making the document malformed. Documents nest
//! arbitrarily; duplicate object keys are resolved to the first occurrence
//! by the lookup helpers.

use vstd::prelude::*;
use crate::text::{
    is_ws, is_digit, is_hex_digit, hex_val, hex4_val, ws_char, digit_char, hex_digit_char,
    hex_digit_val, char_from_code, string_from_chars, chars_of, str_eq,
};

verus! {

broadcast use vstd::std_specs::vec::axiom_vec_index_decreases,
    vstd::std_specs::vec::axiom_vec_decreases_to_view, vstd::seq::axiom_seq_index_decreases;

/// A JSON document, as executable data.
#[derive(Debug)]
pub enum JsonValue {
    Null,
    Bool(bool),
    /// A number, as its raw literal text.
    Num(String),
    /// A string, with escapes already decoded.
    Text(String),
    Arr(Vec<JsonValue>),
    /// Members in document order.
    Obj(Vec<(String, JsonValue)>),
}

/// A JSON document, as mathematical data.
pub enum JsonNode {
    Null,
    Bool(bool),
    Num(Seq<char>),
    Text(Seq<char>),
    Arr(Seq<JsonNode>),
    Obj(Seq<(Seq<char>, JsonNode)>),
}

/// The mathematical reading of an executable JSON value.
pub open spec fn node_of(v: JsonValue) -> JsonNode
    decreases v,
{
    match v {
        JsonValue::Null => JsonNode::Null,
        JsonValue::Bool(b) => JsonNode::Bool(b),
        JsonValue::Num(s) => JsonNode::Num(s@),
        JsonValue::Text(s) => JsonNode::Text(s@),
        JsonValue::Arr(items) => JsonNode::Arr(nodes_of(items@)),
        JsonValue::Obj(members) => JsonNode::Obj(members_of(members@)),
    }
}

/// The mathematical reading of a sequence of executable JSON values.
pub open spec fn nodes_of(items: Seq<JsonValue>) -> Seq<JsonNode>
    decreases items,
{
    Seq::new(
        items.len(),
        |i: int|
            if 0 <= i < items.len() {
                node_of(items[i])
            } else {
                JsonNode::Null
            },
    )
}

/// The mathematical reading of a sequence of executable object members.
pub open spec fn members_of(ms: Seq<(String, JsonValue)>) -> Seq<(Seq<char>, JsonNode)>
    decreases ms,
{
    Seq::new(
        ms.len(),
        |i: int|
            if 0 <= i < ms.len() {
                (ms[i].0@, node_of(ms[i].1))
            } else {
                (Seq::<char>::empty(), JsonNode::Null)
            },
    )
}

/// The first value bound to `key` among the members `ms`.
pub open spec fn obj_lookup(ms: Seq<(Seq<char>, JsonNode)>, key: Seq<char>) -> Option<JsonNode>
    decreases ms.len(),
{
    if ms.len() == 0 {
        None
    } else if ms[0].0 == key {
        Some(ms[0].1)
    } else {
        obj_lookup(ms.skip(1), key)
    }
}

/// The first value bound to `key` when `n` is an object; `None` otherwise.
pub open spec fn node_get(n: JsonNode, key: Seq<char>) -> Option<JsonNode> {
    match n {
        JsonNode::Obj(ms) => obj_lookup(ms, key),
        _ => None,
    }
}

/// The number of leading whitespace characters of `s`.
pub open spec fn sp_ws(s: Seq<char>) -> nat
    decreases s.len(),
{
    if s.len() > 0 && is_ws(s[0]) {
        1 + sp_ws(s.skip(1))
    } else {
        0
    }
}

/// The number of leading decimal digits of `s`.
pub open spec fn digit_count(s: Seq<char>) -> nat
    decreases s.len(),
{
    if s.len() > 0 && is_digit(s[0]) {
        1 + digit_count(s.skip(1))
    } else {
        0
    }
}

/// The character a two-character escape stands for, if the escape is legal.
pub open spec fn short_unescape(c: char) -> Option<char> {
    if c == '"' {
        Some('"')
    } else if c == '\\' {
        Some('\\')
    } else if c == '/' {
        Some('/')
    } else if c == 'b' {
        Some(8u8 as char)
    } else if c == 'f' {
        Some(12u8 as char)
    } else if c == 'n' {
        Some('\n')
    } else if c == 'r' {
        Some('\r')
    } else if c == 't' {
        Some('\t')
    } else {
        None
    }
}

/// Reads a string body positioned just after its opening quote: yields the
/// number of characters consumed (closing quote included) and the decoded
/// content. Opaque: reasoning that needs the grammar itself reveals it.
#[verifier::opaque]
pub open spec fn sp_string_body(s: Seq<char>) -> Option<(nat, Seq<char>)>
    decreases s.len(),
{
    if s.len() == 0 {
        None
    } else if s[0] == '"' {
        Some((1, Seq::empty()))
    } else if s[0] == '\\' {
        if s.len() < 2 {
            None
        } else if s[1] == 'u' {
            if s.len() < 6 || !(is_hex_digit(s[2]) && is_hex_digit(s[3]) && is_hex_digit(s[4])
                && is_hex_digit(s[5])) {
                None
            } else {
                let code = hex4_val(s[2], s[3], s[4], s[5]);
                if code < 0xD800 || code >= 0xE000 {
                    match sp_string_body(s.skip(6)) {
                        Some((n, t)) => Some(((6 + n) as nat, seq![code as char] + t)),
                        None => None,
                    }
                } else if code < 0xDC00 {
                    if s.len() >= 12 && s[6] == '\\' && s[7] == 'u' && is_hex_digit(s[8])
                        && is_hex_digit(s[9]) && is_hex_digit(s[10]) && is_hex_digit(s[11]) {
                        let lo = hex4_val(s[8], s[9], s[10], s[11]);
                        if 0xDC00 <= lo < 0xE000 {
                            let cp = 0x10000 + (code - 0xD800) * 0x400 + (lo - 0xDC00);
                            match sp_string_body(s.skip(12)) {
                                Some((n, t)) => Some(((12 + n) as nat, seq![cp as char] + t)),
                                None => None,
                            }
                        } else {
                            None
                        }
                    } else {
                        None
                    }
                } else {
                    None
                }
            }
        } else {
            match short_unescape(s[1]) {
                Some(c) => match sp_string_body(s.skip(2)) {
                    Some((n, t)) => Some(((2 + n) as nat, seq![c] + t)),
                    None => None,
                },
                None => None,
            }
        }
    } else if (s[0] as u32) < 32 {
        None
    } else {
        match sp_string_body(s.skip(1)) {
            Some((n, t)) => Some(((1 + n) as nat, seq![s[0]] + t)),
            None => None,
        }
    }
}

/// Reads one number literal at the head of `s`: yields the number of
/// characters it occupies. The integer part takes no leading zero: a `0`
/// there stands alone. A malformed fraction or exponent ends the literal
/// before the `.` or `e`, which the surrounding grammar then rejects.
pub open spec fn sp_number(s: Seq<char>) -> Option<nat> {
    let sign: nat = if s.len() > 0 && s[0] == '-' {
        1
    } else {
        0
    };
    let d1 = digit_count(s.skip(sign as int));
    if d1 == 0 {
        None
    } else if s[sign as int] == '0' && d1 > 1 {
        None
    } else {
        let p1 = sign + d1;
        let p2: nat = if p1 < s.len() && s[p1 as int] == '.' {
            let d2 = digit_count(s.skip(p1 + 1 as int));
            if d2 == 0 {
                p1
            } else {
                p1 + 1 + d2
            }
        } else {
            p1
        };
        let p3: nat = if p2 < s.len() && (s[p2 as int] == 'e' || s[p2 as int] == 'E') {
            let es: nat = if p2 + 1 < s.len() && (s[p2 + 1 as int] == '+' || s[p2 + 1 as int]
                == '-') {
                1
            } else {
                0
            };
            let d3 = digit_count(s.skip((p2 + 1 + es) as int));
            if d3 == 0 {
                p2
            } else {
                p2 + 1 + es + d3
            }
        } else {
            p2
        };
        Some(p3)
    }
}

/// Reads one JSON value at the head of `s`: yields the number of characters
/// it occupies and its reading.
pub open spec fn sp_value(s: Seq<char>) -> Option<(nat, JsonNode)>
    decreases s.len(), 1int,
{
    if s.len() == 0 {
        None
    } else if s[0] == 'n' {
        if s.len() >= 4 && s[1] == 'u' && s[2] == 'l' && s[3] == 'l' {
            Some((4, JsonNode::Null))
        } else {
            None
        }
    } else if s[0] == 't' {
        if s.len() >= 4 && s[1] == 'r' && s[2] == 'u' && s[3] == 'e' {
            Some((4, JsonNode::Bool(true)))
        } else {
            None
        }
    } else if s[0] == 'f' {
        if s.len() >= 5 && s[1] == 'a' && s[2] == 'l' && s[3] == 's' && s[4] == 'e' {
            Some((5, JsonNode::Bool(false)))
        } else {
            None
        }
    } else if s[0] == '"' {
        match sp_string_body(s.skip(1)) {
            Some((n, t)) => Some(((1 + n) as nat, JsonNode::Text(t))),
            None => None,
        }
    } else if s[0] == '[' {
        let s1 = s.skip(1);
        let w = sp_ws(s1);
        if w >= s1.len() {
            None
        } else if s1[w as int] == ']' {
            Some(((2 + w) as nat, JsonNode::Arr(Seq::empty())))
        } else {
            match sp_elems(s1) {
                Some((n, vs)) => Some(((1 + n) as nat, JsonNode::Arr(vs))),
                None => None,
            }
        }
    } else if s[0] == '{' {
        let s1 = s.skip(1);
        let w = sp_ws(s1);
        if w >= s1.len() {
            None
        } else if s1[w as int] == '}' {
            Some(((2 + w) as nat, JsonNode::Obj(Seq::empty())))
        } else {
            match sp_membs(s1) {
                Some((n, ms)) => Some(((1 + n) as nat, JsonNode::Obj(ms))),
                None => None,
            }
        }
    } else {
        match sp_number(s) {
            Some(n) => if 0 < n <= s.len() {
                Some((n, JsonNode::Num(s.take(n as int))))
            } else {
                None
            },
            None => None,
        }
    }
}

/// Reads the elements of an array, positioned just after the `[`: yields the
/// number of characters consumed (closing bracket included) and the element
/// readings.
pub open spec fn sp_elems(s: Seq<char>) -> Option<(nat, Seq<JsonNode>)>
    decreases s.len(), 2int,
{
    let w = sp_ws(s);
    if w > s.len() {
        None
    } else {
        let s1 = s.skip(w as int);
        if s1.len() == 0 {
            None
        } else {
            match sp_value(s1) {
                Some((n, v)) => if 0 < n <= s1.len() {
                    let s2 = s1.skip(n as int);
                    let w2 = sp_ws(s2);
                    if w2 >= s2.len() {
                        None
                    } else if s2[w2 as int] == ']' {
                        Some(((w + n + w2 + 1) as nat, seq![v]))
                    } else if s2[w2 as int] == ',' {
                        match sp_elems(s2.skip(w2 + 1 as int)) {
                            Some((m, vs)) => Some(
                                ((w + n + w2 + 1 + m) as nat, seq![v] + vs),
                            ),
                            None => None,
                        }
                    } else {
                        None
                    }
                } else {
                    None
                },
                None => None,
            }
        }
    }
}

/// Reads the members of an object, positioned just after the `{`: yields the
/// number of characters consumed (closing brace included) and the member
/// readings in document order.
pub open spec fn sp_membs(s: Seq<char>) -> Option<(nat, Seq<(Seq<char>, JsonNode)>)>
    decreases s.len(), 2int,
{
    let w = sp_ws(s);
    if w > s.len() {
        None
    } else {
        let s1 = s.skip(w as int);
        if s1.len() == 0 {
            None
        } else if s1[0] == '"' {
            match sp_string_body(s1.skip(1int)) {
                Some((kn, key)) => if kn + 1 <= s1.len() {
                    let s2 = s1.skip((1 + kn) as int);
                    let w2 = sp_ws(s2);
                    if w2 >= s2.len() {
                        None
                    } else if s2[w2 as int] != ':' {
                        None
                    } else {
                        let s3 = s2.skip((w2 + 1) as int);
                        match sp_value_after_ws(s3) {
                            Some((vn, v)) => if 0 < vn <= s3.len() {
                                let s4 = s3.skip(vn as int);
                                let w4 = sp_ws(s4);
                                if w4 >= s4.len() {
                                    None
                                } else if s4[w4 as int] == '}' {
                                    Some(
                                        ((w + 1 + kn + w2 + 1 + vn + w4 + 1) as nat,
                                        seq![(key, v)]),
                                    )
                                } else if s4[w4 as int] == ',' {
                                    match sp_membs(s4.skip((w4 + 1) as int)) {
                                        Some((mn, ms)) => Some(
                                            ((w + 1 + kn + w2 + 1 + vn + w4 + 1 + mn) as nat,
                                            seq![(key, v)] + ms),
                                        ),
                                        None => None,
                                    }
                                } else {
                                    None
                                }
                            } else {
                                None
                            },
                            None => None,
                        }
                    }
                } else {
                    None
                },
                None => None,
            }
        } else {
            None
        }
    }
}

/// Reads whitespace and then one value: yields the total count consumed and
/// the value's reading.
pub open spec fn sp_value_after_ws(s: Seq<char>) -> Option<(nat, JsonNode)>
    decreases s.len(), 2int,
{
    let w = sp_ws(s);
    if w > s.len() {
        None
    } else {
        match sp_value(s.skip(w as int)) {
            Some((n, v)) => Some(((w + n) as nat, v)),
            None => None,
        }
    }
}

/// The reading of a complete document: one value, surrounded only by
/// whitespace.
pub open spec fn sp_doc(s: Seq<char>) -> Option<JsonNode> {
    match sp_value_after_ws(s) {
        Some((n, v)) => if n <= s.len() && sp_ws(s.skip(n as int)) == s.len() - n {
            Some(v)
        } else {
            None
        },
        None => None,
    }
}

} // verus!

// ---------------------------------------------------------------------------
// Bounds of the reading functions.
// ---------------------------------------------------------------------------

verus! {

// ---------------------------------------------------------------------------
// The executable reader. Each function is verified to return exactly what
// the corresponding reading function above says.
// ---------------------------------------------------------------------------

/// Advances over whitespace, from index `i` to the first significant
/// character.
fn p_ws(s: &Vec<char>, i: usize) -> (j: usize)
    requires
        i <= s@.len(),
    ensures
        i <= j <= s@.len(),
        j - i == sp_ws(s@.skip(i as int)),
{
    let mut j: usize = i;
    loop
        invariant
            i <= j <= s@.len(),
            sp_ws(s@.skip(i as int)) == (j - i) + sp_ws(s@.skip(j as int)),
        ensures
            i <= j <= s@.len(),
            sp_ws(s@.skip(i as int)) == j - i,
        decreases s@.len() - j,
    {
        if j == s.len() {
            proof {
                assert(s@.skip(j as int).len() == 0);
            }
            break;
        }
        let c = s[j];
        proof {
            assert(s@.skip(j as int)[0] == s@[j as int]);
        }
        if !ws_char(c) {
            break;
        }
        proof {
            assert(s@.skip(j as int).skip(1) =~= s@.skip(j as int + 1));
        }
        j = j + 1;
    }
    j
}

/// Advances over decimal digits, from index `i` to the first non-digit.
fn p_digits(s: &Vec<char>, i: usize) -> (j: usize)
    requires
        i <= s@.len(),
    ensures
        i <= j <= s@.len(),
        j - i == digit_count(s@.skip(i as int)),
{
    let mut j: usize = i;
    loop
        invariant
            i <= j <= s@.len(),
            digit_count(s@.skip(i as int)) == (j - i) + digit_count(s@.skip(j as int)),
        ensures
            i <= j <= s@.len(),
            digit_count(s@.skip(i as int)) == j - i,
        decreases s@.len() - j,
    {
        if j == s.len() {
            proof {
                assert(s@.skip(j as int).len() == 0);
            }
            break;
        }
        let c = s[j];
        proof {
            assert(s@.skip(j as int)[0] == s@[j as int]);
        }
        if !digit_char(c) {
            break;
        }
        proof {
            assert(s@.skip(j as int).skip(1) =~= s@.skip(j as int + 1));
        }
        j = j + 1;
    }
    j
}

/// Decodes one two-character escape.
fn short_unescape_char(c: char) -> (r: Option<char>)
    ensures
        r == short_unescape(c),
{
    if c == '"' {
        Some('"')
    } else if c == '\\' {
        Some('\\')
    } else if c == '/' {
        Some('/')
    } else if c == 'b' {
        Some(8u8 as char)
    } else if c == 'f' {
        Some(12u8 as char)
    } else if c == 'n' {
        Some('\n')
    } else if c == 'r' {
        Some('\r')
    } else if c == 't' {
        Some('\t')
    } else {
        None
    }
}

/// What remains to be read of a string body: if the rest of the body reads
/// as `(n, t)`, the whole body reads as the characters gathered so far
/// followed by `t`.
spec fn string_body_cont(s: Seq<char>, i: int, j: int, acc: Seq<char>) -> bool {
    match sp_string_body(s.skip(j)) {
        Some((n, t)) => sp_string_body(s.skip(i)) == Some((((j - i) + n) as nat, acc + t)),
        None => sp_string_body(s.skip(i)) is None,
    }
}

/// Reads a string body starting at index `i`, just after the opening quote;
/// returns the index just past the closing quote and the decoded content.
#[verifier::rlimit(100)]
#[verifier::spinoff_prover]
pub(crate) fn p_string_body(s: &Vec<char>, i: usize) -> (r: Option<(usize, Vec<char>)>)
    requires
        i <= s@.len(),
    ensures
        match r {
            Some(p) => i < p.0 <= s@.len() && sp_string_body(s@.skip(i as int)) == Some(
                (((p.0 - i) as nat), p.1@),
            ),
            None => sp_string_body(s@.skip(i as int)) is None,
        },
{
    let mut j: usize = i;
    let mut acc: Vec<char> = Vec::new();
    loop
        invariant
            i <= j <= s@.len(),
            string_body_cont(s@, i as int, j as int, acc@),
        decreases s@.len() - j,
    {
        proof {
            reveal(sp_string_body);
        }
        if j == s.len() {
            proof {
                assert(s@.skip(j as int).len() == 0);
            }
            return None;
        }
        let c = s[j];
        proof {
            assert(s@.skip(j as int)[0] == s@[j as int]);
        }
        if c == '"' {
            proof {
                assert(acc@ + Seq::<char>::empty() =~= acc@);
            }
            return Some((j + 1, acc));
        }
        if c == '\\' {
            if s.len() - j < 2 {
                return None;
            }
            let e = s[j + 1];
            proof {
                assert(s@.skip(j as int)[1] == s@[j as int + 1]);
            }
            if e == 'u' {
                if s.len() - j < 6 {
                    return None;
                }
                proof {
                    assert(s@.skip(j as int)[2] == s@[j as int + 2]);
                    assert(s@.skip(j as int)[3] == s@[j as int + 3]);
                    assert(s@.skip(j as int)[4] == s@[j as int + 4]);
                    assert(s@.skip(j as int)[5] == s@[j as int + 5]);
                }
                if !(hex_digit_char(s[j + 2]) && hex_digit_char(s[j + 3]) && hex_digit_char(
                    s[j + 4],
                ) && hex_digit_char(s[j + 5])) {
                    return None;
                }
                let code: u32 = ((hex_digit_val(s[j + 2]) * 16 + hex_digit_val(s[j + 3])) * 16
                    + hex_digit_val(s[j + 4])) * 16 + hex_digit_val(s[j + 5]);
                proof {
                    assert(code == hex4_val(s@[j as int + 2], s@[j as int + 3], s@[j as int + 4], s@[j as int + 5]));
                }
                if code < 0xD800 || code >= 0xE000 {
                    let ch = char_from_code(code);
                    let ghost acc0 = acc@;
                    acc.push(ch);
                    proof {
                        assert(((code as nat) as char) as u32 == code);
                        assert(ch == (code as nat) as char);
                        assert(s@.skip(j as int).skip(6) =~= s@.skip(j as int + 6));
                        match sp_string_body(s@.skip(j as int + 6)) {
                            Some((n, t)) => {
                                assert(acc0 + (seq![ch] + t) =~= acc@ + t);
                            },
                            None => {},
                        }
                    }
                    j = j + 6;
                } else if code < 0xDC00 {
                    if s.len() - j < 12 {
                        return None;
                    }
                    proof {
                        assert(s@.skip(j as int)[6] == s@[j as int + 6]);
                        assert(s@.skip(j as int)[7] == s@[j as int + 7]);
                        assert(s@.skip(j as int)[8] == s@[j as int + 8]);
                        assert(s@.skip(j as int)[9] == s@[j as int + 9]);
                        assert(s@.skip(j as int)[10] == s@[j as int + 10]);
                        assert(s@.skip(j as int)[11] == s@[j as int + 11]);
                    }
                    if !(s[j + 6] == '\\' && s[j + 7] == 'u') {
                        return None;
                    }
                    if !(hex_digit_char(s[j + 8]) && hex_digit_char(s[j + 9]) && hex_digit_char(
                        s[j + 10],
                    ) && hex_digit_char(s[j + 11])) {
                        return None;
                    }
                    let lo: u32 = ((hex_digit_val(s[j + 8]) * 16 + hex_digit_val(s[j + 9])) * 16
                        + hex_digit_val(s[j + 10])) * 16 + hex_digit_val(s[j + 11]);
                    proof {
                        assert(lo == hex4_val(s@[j as int + 8], s@[j as int + 9], s@[j as int + 10], s@[j as int + 11]));
                    }
                    if !(0xDC00 <= lo && lo < 0xE000) {
                        return None;
                    }
                    let cp: u32 = 0x10000 + (code - 0xD800) * 0x400 + (lo - 0xDC00);
                    let ch = char_from_code(cp);
                    let ghost acc0 = acc@;
                    acc.push(ch);
                    proof {
                        assert(((cp as nat) as char) as u32 == cp);
                        assert(ch == (cp as nat) as char);
                        assert(s@.skip(j as int).skip(12) =~= s@.skip(j as int + 12));
                        match sp_string_body(s@.skip(j as int + 12)) {
                            Some((n, t)) => {
                                assert(acc0 + (seq![ch] + t) =~= acc@ + t);
                            },
                            None => {},
                        }
                    }
                    j = j + 12;
                } else {
                    return None;
                }
            } else {
                match short_unescape_char(e) {
                    Some(ch) => {
                        let ghost acc0 = acc@;
                        acc.push(ch);
                        proof {
                            assert(s@.skip(j as int).skip(2) =~= s@.skip(j as int + 2));
                            match sp_string_body(s@.skip(j as int + 2)) {
                                Some((n, t)) => {
                                    assert(acc0 + (seq![ch] + t) =~= acc@ + t);
                                },
                                None => {},
                            }
                        }
                        j = j + 2;
                    },
                    None => {
                        return None;
                    },
                }
            }
        } else if (c as u32) < 32 {
            return None;
        } else {
            let ghost acc0 = acc@;
            acc.push(c);
            proof {
                assert(s@.skip(j as int).skip(1) =~= s@.skip(j as int + 1));
                match sp_string_body(s@.skip(j as int + 1)) {
                    Some((n, t)) => {
                        assert(acc0 + (seq![c] + t) =~= acc@ + t);
                    },
                    None => {},
                }
            }
            j = j + 1;
        }
    }
}

/// Reads one number literal starting at index `i`; returns the index just
/// past it.
#[verifier::rlimit(50)]
fn p_number(s: &Vec<char>, i: usize) -> (r: Option<usize>)
    requires
        i <= s@.len(),
    ensures
        match r {
            Some(j) => i < j <= s@.len() && sp_number(s@.skip(i as int)) == Some(
                ((j - i) as nat),
            ),
            None => sp_number(s@.skip(i as int)) is None,
        },
{
    let ghost u = s@.skip(i as int);
    let sign: usize = if i < s.len() && s[i] == '-' {
        1
    } else {
        0
    };
    proof {
        if i < s@.len() {
            assert(u[0] == s@[i as int]);
        }
        assert(u.skip(sign as int) =~= s@.skip(i as int + sign as int));
    }
    let jd: usize = p_digits(s, i + sign);
    if jd == i + sign {
        return None;
    }
    proof {
        assert(u[(sign as int)] == s@[i + sign]);
    }
    if s[i + sign] == '0' && jd > i + sign + 1 {
        return None;
    }
    // the end of the integer part: i + sign + d1
    let mut p: usize = jd;
    if p < s.len() {
        let c = s[p];
        proof {
            assert(u[(p - i) as int] == s@[p as int]);
        }
        if c == '.' {
            let jf: usize = p_digits(s, p + 1);
            proof {
                assert(u.skip((p - i) as int + 1) =~= s@.skip(p as int + 1));
            }
            if jf > p + 1 {
                p = jf;
            }
        }
    }
    if p < s.len() {
        let c = s[p];
        proof {
            assert(u[(p - i) as int] == s@[p as int]);
        }
        if c == 'e' || c == 'E' {
            let es: usize = if p + 1 < s.len() && (s[p + 1] == '+' || s[p + 1] == '-') {
                1
            } else {
                0
            };
            proof {
                if p + 1 < s@.len() {
                    assert(u[(p - i) as int + 1] == s@[p as int + 1]);
                }
                assert(u.skip((p - i) as int + 1 + es as int) =~= s@.skip(
                    p as int + 1 + es as int,
                ));
            }
            let je: usize = p_digits(s, p + 1 + es);
            if je > p + 1 + es {
                p = je;
            }
        }
    }
    Some(p)
}

} // verus!

// ---------------------------------------------------------------------------
// Values, arrays, objects, documents.
// ---------------------------------------------------------------------------

verus! {

/// Copies the characters `s[from .. to]`.
fn copy_range(s: &Vec<char>, from: usize, to: usize) -> (r: Vec<char>)
    requires
        from <= to <= s@.len(),
    ensures
        r@ == s@.subrange(from as int, to as int),
{
    let mut r: Vec<char> = Vec::new();
    proof {
        assert(r@ =~= s@.subrange(from as int, from as int));
    }
    let mut k: usize = from;
    while k < to
        invariant
            from <= k <= to <= s@.len(),
            r@ == s@.subrange(from as int, k as int),
        decreases to - k,
    {
        r.push(s[k]);
        k = k + 1;
        proof {
            assert(r@ =~= s@.subrange(from as int, k as int));
        }
    }
    r
}

/// Reads one JSON value starting at index `i`; returns the index just past
/// it and the value.
fn p_value(s: &Vec<char>, i: usize) -> (r: Option<(usize, JsonValue)>)
    requires
        i <= s@.len(),
    ensures
        match r {
            Some(p) => i < p.0 <= s@.len() && sp_value(s@.skip(i as int)) == Some(
                (((p.0 - i) as nat), node_of(p.1)),
            ),
            None => sp_value(s@.skip(i as int)) is None,
        },
    decreases s@.len() - i, 1int,
{
    let ghost u = s@.skip(i as int);
    if i == s.len() {
        proof {
            assert(u.len() == 0);
        }
        return None;
    }
    let c = s[i];
    proof {
        assert(u[0] == s@[i as int]);
    }
    if c == 'n' || c == 't' {
        if s.len() - i < 4 {
            return None;
        }
        proof {
            assert(u[1] == s@[i as int + 1]);
            assert(u[2] == s@[i as int + 2]);
            assert(u[3] == s@[i as int + 3]);
        }
        if c == 'n' {
            if s[i + 1] == 'u' && s[i + 2] == 'l' && s[i + 3] == 'l' {
                return Some((i + 4, JsonValue::Null));
            }
            return None;
        }
        if s[i + 1] == 'r' && s[i + 2] == 'u' && s[i + 3] == 'e' {
            return Some((i + 4, JsonValue::Bool(true)));
        }
        return None;
    }
    if c == 'f' {
        if s.len() - i < 5 {
            return None;
        }
        proof {
            assert(u[1] == s@[i as int + 1]);
            assert(u[2] == s@[i as int + 2]);
            assert(u[3] == s@[i as int + 3]);
            assert(u[4] == s@[i as int + 4]);
        }
        if s[i + 1] == 'a' && s[i + 2] == 'l' && s[i + 3] == 's' && s[i + 4] == 'e' {
            return Some((i + 5, JsonValue::Bool(false)));
        }
        return None;
    }
    if c == '"' {
        proof {
            assert(u.skip(1) =~= s@.skip(i as int + 1));
        }
        match p_string_body(s, i + 1) {
            Some((j, t)) => {
                let txt = string_from_chars(&t);
                return Some((j, JsonValue::Text(txt)));
            },
            None => {
                return None;
            },
        }
    }
    if c == '[' {
        proof {
            assert(u.skip(1) =~= s@.skip(i as int + 1));
        }
        let w = p_ws(s, i + 1);
        if w == s.len() {
            return None;
        }
        proof {
            assert(s@.skip(i as int + 1)[(w - i - 1) as int] == s@[w as int]);
        }
        if s[w] == ']' {
            let items: Vec<JsonValue> = Vec::new();
            proof {
                assert(nodes_of(items@) =~= Seq::<JsonNode>::empty());
            }
            return Some((w + 1, JsonValue::Arr(items)));
        }
        match p_elems(s, i + 1) {
            Some((j, items)) => {
                return Some((j, JsonValue::Arr(items)));
            },
            None => {
                return None;
            },
        }
    }
    if c == '{' {
        proof {
            assert(u.skip(1) =~= s@.skip(i as int + 1));
        }
        let w = p_ws(s, i + 1);
        if w == s.len() {
            return None;
        }
        proof {
            assert(s@.skip(i as int + 1)[(w - i - 1) as int] == s@[w as int]);
        }
        if s[w] == '}' {
            let ms: Vec<(String, JsonValue)> = Vec::new();
            proof {
                assert(members_of(ms@) =~= Seq::<(Seq<char>, JsonNode)>::empty());
            }
            return Some((w + 1, JsonValue::Obj(ms)));
        }
        match p_membs(s, i + 1) {
            Some((j, ms)) => {
                return Some((j, JsonValue::Obj(ms)));
            },
            None => {
                return None;
            },
        }
    }
    match p_number(s, i) {
        Some(j) => {
            let raw = copy_range(s, i, j);
            proof {
                assert(u.take((j - i) as int) =~= s@.subrange(i as int, j as int));
            }
            let txt = string_from_chars(&raw);
            Some((j, JsonValue::Num(txt)))
        },
        None => None,
    }
}

/// Reads array elements starting at index `i`, just after the `[`; returns
/// the index just past the closing bracket and the elements.
#[verifier::rlimit(100)]
#[verifier::spinoff_prover]
fn p_elems(s: &Vec<char>, i: usize) -> (r: Option<(usize, Vec<JsonValue>)>)
    requires
        i <= s@.len(),
    ensures
        match r {
            Some(p) => i < p.0 <= s@.len() && sp_elems(s@.skip(i as int)) == Some(
                (((p.0 - i) as nat), nodes_of(p.1@)),
            ),
            None => sp_elems(s@.skip(i as int)) is None,
        },
    decreases s@.len() - i, 2int,
{
    let w = p_ws(s, i);
    proof {
        assert(s@.skip(i as int).skip((w - i) as int) =~= s@.skip(w as int));
    }
    if w == s.len() {
        return None;
    }
    match p_value(s, w) {
        None => {
            return None;
        },
        Some((j2, v)) => {
            let w2 = p_ws(s, j2);
            proof {
                assert(s@.skip(w as int).skip((j2 - w) as int) =~= s@.skip(j2 as int));
            }
            if w2 == s.len() {
                return None;
            }
            let c2 = s[w2];
            proof {
                assert(s@.skip(j2 as int)[(w2 - j2) as int] == s@[w2 as int]);
            }
            if c2 == ']' {
                let ghost vn = node_of(v);
                let mut items: Vec<JsonValue> = Vec::new();
                items.push(v);
                proof {
                    assert(nodes_of(items@) =~= seq![vn]);
                }
                return Some((w2 + 1, items));
            }
            if c2 == ',' {
                proof {
                    assert(s@.skip(j2 as int).skip((w2 + 1 - j2) as int) =~= s@.skip(
                        w2 as int + 1,
                    ));
                }
                match p_elems(s, w2 + 1) {
                    Some((j3, rest)) => {
                        let ghost vn = node_of(v);
                        let ghost rest0 = rest@;
                        let mut items: Vec<JsonValue> = Vec::new();
                        items.push(v);
                        let mut rest_m = rest;
                        items.append(&mut rest_m);
                        proof {
                            assert(items@ =~= seq![items@[0]] + rest0);
                            assert(nodes_of(items@) =~= seq![vn] + nodes_of(rest0));
                        }
                        return Some((j3, items));
                    },
                    None => {
                        return None;
                    },
                }
            }
            return None;
        },
    }
}

/// Reads whitespace and one value starting at index `i`.
fn p_value_after_ws(s: &Vec<char>, i: usize) -> (r: Option<(usize, JsonValue)>)
    requires
        i <= s@.len(),
    ensures
        match r {
            Some(p) => i < p.0 <= s@.len() && sp_value_after_ws(s@.skip(i as int)) == Some(
                (((p.0 - i) as nat), node_of(p.1)),
            ),
            None => sp_value_after_ws(s@.skip(i as int)) is None,
        },
    decreases s@.len() - i, 2int,
{
    let w = p_ws(s, i);
    proof {
        assert(s@.skip(i as int).skip((w - i) as int) =~= s@.skip(w as int));
    }
    match p_value(s, w) {
        Some((j, v)) => Some((j, v)),
        None => None,
    }
}

/// Reads object members starting at index `i`, just after the `{`; returns
/// the index just past the closing brace and the members in document order.
#[verifier::rlimit(100)]
#[verifier::spinoff_prover]
fn p_membs(s: &Vec<char>, i: usize) -> (r: Option<(usize, Vec<(String, JsonValue)>)>)
    requires
        i <= s@.len(),
    ensures
        match r {
            Some(p) => i < p.0 <= s@.len() && sp_membs(s@.skip(i as int)) == Some(
                (((p.0 - i) as nat), members_of(p.1@)),
            ),
            None => sp_membs(s@.skip(i as int)) is None,
        },
    decreases s@.len() - i, 2int,
{
    let w = p_ws(s, i);
    proof {
        assert(s@.skip(i as int).skip((w - i) as int) =~= s@.skip(w as int));
    }
    if w == s.len() {
        return None;
    }
    let c = s[w];
    proof {
        assert(s@.skip(w as int)[0] == s@[w as int]);
    }
    if c != '"' {
        return None;
    }
    proof {
        assert(s@.skip(w as int).skip(1) =~= s@.skip(w as int + 1));
    }
    match p_string_body(s, w + 1) {
        None => {
            return None;
        },
        Some((jk, kv)) => {
            let w2 = p_ws(s, jk);
            proof {
                assert(s@.skip(w as int).skip((jk - w) as int) =~= s@.skip(jk as int));
            }
            if w2 == s.len() {
                return None;
            }
            let c2 = s[w2];
            proof {
                assert(s@.skip(jk as int)[(w2 - jk) as int] == s@[w2 as int]);
            }
            if c2 != ':' {
                return None;
            }
            proof {
                assert(s@.skip(jk as int).skip((w2 + 1 - jk) as int) =~= s@.skip(w2 as int + 1));
            }
            match p_value_after_ws(s, w2 + 1) {
                None => {
                    return None;
                },
                Some((jv, v)) => {
                    let w4 = p_ws(s, jv);
                    proof {
                        assert(s@.skip(w2 as int + 1).skip((jv - w2 - 1) as int) =~= s@.skip(
                            jv as int,
                        ));
                    }
                    if w4 == s.len() {
                        return None;
                    }
                    let c4 = s[w4];
                    proof {
                        assert(s@.skip(jv as int)[(w4 - jv) as int] == s@[w4 as int]);
                    }
                    let key = string_from_chars(&kv);
                    if c4 == '}' {
                        let ghost vn = node_of(v);
                        let ghost kq = key@;
                        let mut ms: Vec<(String, JsonValue)> = Vec::new();
                        ms.push((key, v));
                        proof {
                            assert(members_of(ms@) =~= seq![(kq, vn)]);
                        }
                        return Some((w4 + 1, ms));
                    }
                    if c4 == ',' {
                        proof {
                            assert(s@.skip(jv as int).skip((w4 + 1 - jv) as int) =~= s@.skip(
                                w4 as int + 1,
                            ));
                        }
                        match p_membs(s, w4 + 1) {
                            Some((jm, rest)) => {
                                let ghost vn = node_of(v);
                                let ghost kq = key@;
                                let ghost rest0 = rest@;
                                let mut ms: Vec<(String, JsonValue)> = Vec::new();
                                ms.push((key, v));
                                let mut rest_m = rest;
                                ms.append(&mut rest_m);
                                proof {
                                    assert(ms@ =~= seq![ms@[0]] + rest0);
                                    assert(members_of(ms@) =~= seq![(kq, vn)] + members_of(
                                        rest0,
                                    ));
                                }
                                return Some((jm, ms));
                            },
                            None => {
                                return None;
                            },
                        }
                    }
                    return None;
                },
            }
        },
    }
}

/// Reads a complete JSON document: one value surrounded only by whitespace.
pub fn parse_json(text: &str) -> (r: Option<JsonValue>)
    ensures
        match r {
            Some(v) => sp_doc(text@) == Some(node_of(v)),
            None => sp_doc(text@) is None,
        },
{
    let s = chars_of(text);
    proof {
        assert(s@.skip(0) =~= s@);
    }
    match p_value_after_ws(&s, 0) {
        Some((j, v)) => {
            let w = p_ws(&s, j);
            if w == s.len() {
                Some(v)
            } else {
                None
            }
        },
        None => None,
    }
}

} // verus!

// ---------------------------------------------------------------------------
// Reading fields out of a parsed document.
// ---------------------------------------------------------------------------

verus! {

/// Looking a key up ignores a prefix of members that do not carry it.
pub proof fn lemma_obj_lookup_skip(ms: Seq<(Seq<char>, JsonNode)>, key: Seq<char>, k: int)
    requires
        0 <= k <= ms.len(),
        forall|t: int| 0 <= t < k ==> ms[t].0 != key,
    ensures
        obj_lookup(ms, key) == obj_lookup(ms.skip(k), key),
    decreases k,
{
    if k > 0 {
        assert(forall|t: int| 0 <= t < k - 1 ==> ms.skip(1)[t] == ms[t + 1]);
        lemma_obj_lookup_skip(ms.skip(1), key, k - 1);
        assert(ms.skip(1).skip(k - 1) =~= ms.skip(k));
    } else {
        assert(ms.skip(0) =~= ms);
    }
}

impl JsonValue {
    /// The first member named `key`, when this value is an object with such
    /// a member.
    pub fn get<'a>(&'a self, key: &str) -> (r: Option<&'a JsonValue>)
        ensures
            match r {
                Some(v) => node_get(node_of(*self), key@) == Some(node_of(*v)),
                None => node_get(node_of(*self), key@) is None,
            },
    {
        match self {
            JsonValue::Obj(ms) => {
                let n: usize = ms.len();
                let mut k: usize = 0;
                while k < n
                    invariant
                        n == ms@.len(),
                        k <= n,
                        node_of(*self) == JsonNode::Obj(members_of(ms@)),
                        forall|t: int| 0 <= t < k ==> members_of(ms@)[t].0 != key@,
                    decreases n - k,
                {
                    if str_eq(ms[k].0.as_str(), key) {
                        proof {
                            lemma_obj_lookup_skip(members_of(ms@), key@, k as int);
                            assert(members_of(ms@).skip(k as int)[0] == members_of(ms@)[k as int]);
                            assert(members_of(ms@)[k as int].0 == ms@[k as int].0@);
                            assert(members_of(ms@)[k as int].1 == node_of(ms@[k as int].1));
                            assert(node_of(*self) == JsonNode::Obj(members_of(ms@)));
                            assert(obj_lookup(members_of(ms@).skip(k as int), key@) == Some(
                                members_of(ms@)[k as int].1,
                            ));
                        }
                        return Some(&ms[k].1);
                    }
                    k = k + 1;
                }
                proof {
                    lemma_obj_lookup_skip(members_of(ms@), key@, n as int);
                    assert(members_of(ms@).skip(n as int) =~= Seq::<(Seq<char>, JsonNode)>::empty());
                }
                None
            },
            _ => None,
        }
    }

    /// The decoded string content, when this value is a string.
    pub fn as_text(&self) -> (r: Option<&String>)
        ensures
            match r {
                Some(t) => node_of(*self) == JsonNode::Text(t@),
                None => !(node_of(*self) is Text),
            },
    {
        match self {
            JsonValue::Text(t) => Some(t),
            _ => None,
        }
    }

    /// The raw number text, when this value is a number.
    pub fn as_num_text(&self) -> (r: Option<&String>)
        ensures
            match r {
                Some(t) => node_of(*self) == JsonNode::Num(t@),
                None => !(node_of(*self) is Num),
            },
    {
        match self {
            JsonValue::Num(t) => Some(t),
            _ => None,
        }
    }
}

} // verus!

// ---------------------------------------------------------------------------
// Duplicating a document.
// ---------------------------------------------------------------------------

verus! {

impl Clone for JsonValue {
    /// A copy with the same reading.
    #[verifier::loop_isolation(false)]
    fn clone(&self) -> (r: JsonValue)
        ensures
            node_of(r) == node_of(*self),
        decreases self,
    {
        match self {
            JsonValue::Null => JsonValue::Null,
            JsonValue::Bool(b) => JsonValue::Bool(*b),
            JsonValue::Num(s) => JsonValue::Num(s.clone()),
            JsonValue::Text(s) => JsonValue::Text(s.clone()),
            JsonValue::Arr(items) => {
                let n: usize = items.len();
                let mut out: Vec<JsonValue> = Vec::new();
                let mut k: usize = 0;
                while k < n
                    invariant
                        k <= n,
                        out@.len() == k,
                        forall|t: int| 0 <= t < k ==> node_of(out@[t]) == node_of(items@[t]),
                    decreases n - k,
                {
                    out.push(items[k].clone());
                    k = k + 1;
                }
                proof {
                    assert(nodes_of(out@) =~= nodes_of(items@));
                }
                JsonValue::Arr(out)
            },
            JsonValue::Obj(ms) => {
                let n: usize = ms.len();
                let mut out: Vec<(String, JsonValue)> = Vec::new();
                let mut k: usize = 0;
                while k < n
                    invariant
                        k <= n,
                        out@.len() == k,
                        forall|t: int| 0 <= t < k ==> #[trigger] out@[t].0@ == ms@[t].0@
                            && node_of(out@[t].1) == node_of(ms@[t].1),
                    decreases n - k,
                {
                    let key = ms[k].0.clone();
                    let val = ms[k].1.clone();
                    out.push((key, val));
                    k = k + 1;
                }
                proof {
                    assert(members_of(out@) =~= members_of(ms@));
                }
                JsonValue::Obj(out)
            },
        }
    }
}

} // verus!
