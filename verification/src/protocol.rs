//! The subscription protocol: the feed types a session can address, the
//! outbound subscribe/unsubscribe payloads, and their wire encoding.
//!
//! A subscribe and an unsubscribe are the same wire operation; only the
//! message's action field differs.

use vstd::prelude::*;
use crate::text::{string_from_chars, chars_of};
use crate::json::short_unescape;

verus! {

/// The category of live event stream a WebSocket session subscribes to.
#[derive(Debug, Clone, Copy, PartialEq, Eq, Structural)]
pub enum FeedType {
    TokenEvents,
    MigrationEvents,
    WalletEvents,
}

impl FeedType {
    /// The path segment that selects this feed on the server.
    pub open spec fn spec_path(self) -> Seq<char> {
        match self {
            FeedType::TokenEvents => "token-events"@,
            FeedType::MigrationEvents => "migration-events"@,
            FeedType::WalletEvents => "wallet-events"@,
        }
    }

    /// The path segment that selects this feed on the server.
    pub fn path(&self) -> (r: &'static str)
        ensures
            r@ == self.spec_path(),
    {
        match self {
            FeedType::TokenEvents => "token-events",
            FeedType::MigrationEvents => "migration-events",
            FeedType::WalletEvents => "wallet-events",
        }
    }
}

/// The action a subscription message performs.
#[derive(Debug, Clone, Copy, PartialEq, Eq, Structural)]
pub enum SubscriptionMessageType {
    Subscribe,
    Unsubscribe,
}

impl SubscriptionMessageType {
    /// The action's name on the wire.
    pub open spec fn spec_wire(self) -> Seq<char> {
        match self {
            SubscriptionMessageType::Subscribe => "subscribe"@,
            SubscriptionMessageType::Unsubscribe => "unsubscribe"@,
        }
    }

    /// The action's name on the wire.
    pub fn wire(&self) -> (r: &'static str)
        ensures
            r@ == self.spec_wire(),
    {
        match self {
            SubscriptionMessageType::Subscribe => "subscribe",
            SubscriptionMessageType::Unsubscribe => "unsubscribe",
        }
    }
}

/// The event categories addressable on the token and migration feeds:
/// one per liquidity-pool protocol family.
#[derive(Debug, Clone, Copy, PartialEq, Eq, Structural)]
pub enum SubscriptionType {
    PumpfunTokens,
    RaydiumAmmTokens,
    RaydiumCpmmTokens,
    RaydiumClmmTokens,
}

impl SubscriptionType {
    /// The category's name on the wire.
    pub open spec fn spec_wire(self) -> Seq<char> {
        match self {
            SubscriptionType::PumpfunTokens => "PumpfunTokens"@,
            SubscriptionType::RaydiumAmmTokens => "RaydiumAmmTokens"@,
            SubscriptionType::RaydiumCpmmTokens => "RaydiumCpmmTokens"@,
            SubscriptionType::RaydiumClmmTokens => "RaydiumClmmTokens"@,
        }
    }

    /// The category's name on the wire.
    pub fn wire(&self) -> (r: &'static str)
        ensures
            r@ == self.spec_wire(),
    {
        match self {
            SubscriptionType::PumpfunTokens => "PumpfunTokens",
            SubscriptionType::RaydiumAmmTokens => "RaydiumAmmTokens",
            SubscriptionType::RaydiumCpmmTokens => "RaydiumCpmmTokens",
            SubscriptionType::RaydiumClmmTokens => "RaydiumClmmTokens",
        }
    }
}

/// The outbound payload for the token and migration feeds: an action and the
/// addressed categories.
#[derive(Debug, Clone)]
pub struct TokenSubscriptionMessage {
    pub action: SubscriptionMessageType,
    pub types: Vec<SubscriptionType>,
}

/// The outbound payload for the wallet feed: an action and the watched
/// addresses.
#[derive(Debug, Clone)]
pub struct WalletSubscriptionMessage {
    pub action: SubscriptionMessageType,
    pub wallets: Vec<String>,
}

// ---------------------------------------------------------------------------
// The wire encoding.
// ---------------------------------------------------------------------------

/// The hexadecimal digit character for a value below sixteen.
pub open spec fn hex_char(d: nat) -> char {
    if d == 0 {
        '0'
    } else if d == 1 {
        '1'
    } else if d == 2 {
        '2'
    } else if d == 3 {
        '3'
    } else if d == 4 {
        '4'
    } else if d == 5 {
        '5'
    } else if d == 6 {
        '6'
    } else if d == 7 {
        '7'
    } else if d == 8 {
        '8'
    } else if d == 9 {
        '9'
    } else if d == 10 {
        'a'
    } else if d == 11 {
        'b'
    } else if d == 12 {
        'c'
    } else if d == 13 {
        'd'
    } else if d == 14 {
        'e'
    } else {
        'f'
    }
}

/// How one character appears inside a JSON string literal: quotes and
/// backslashes take a two-character escape, control characters a
/// `\u00XX` escape, everything else stands as itself.
pub open spec fn spec_escape_char(c: char) -> Seq<char> {
    if c == '"' {
        seq!['\\', '"']
    } else if c == '\\' {
        seq!['\\', '\\']
    } else if (c as u32) < 32 {
        seq!['\\', 'u', '0', '0', hex_char(((c as u32) / 16) as nat), hex_char(
            ((c as u32) % 16) as nat,
        )]
    } else {
        seq![c]
    }
}

/// How a whole string appears inside a JSON string literal.
pub open spec fn spec_escape(s: Seq<char>) -> Seq<char>
    decreases s.len(),
{
    if s.len() == 0 {
        Seq::empty()
    } else {
        spec_escape_char(s[0]) + spec_escape(s.skip(1))
    }
}

/// A string as a complete JSON literal, quotes included.
pub open spec fn spec_quoted(s: Seq<char>) -> Seq<char> {
    seq!['"'] + spec_escape(s) + seq!['"']
}

/// The categories after the first, each preceded by a comma.
pub open spec fn spec_type_rest(ts: Seq<SubscriptionType>) -> Seq<char>
    decreases ts.len(),
{
    if ts.len() == 0 {
        Seq::empty()
    } else {
        seq![','] + spec_quoted(ts[0].spec_wire()) + spec_type_rest(ts.skip(1))
    }
}

/// A comma-separated list of quoted categories.
pub open spec fn spec_type_list(ts: Seq<SubscriptionType>) -> Seq<char> {
    if ts.len() == 0 {
        Seq::empty()
    } else {
        spec_quoted(ts[0].spec_wire()) + spec_type_rest(ts.skip(1))
    }
}

/// The addresses after the first, each preceded by a comma.
pub open spec fn spec_wallet_rest(ws: Seq<String>) -> Seq<char>
    decreases ws.len(),
{
    if ws.len() == 0 {
        Seq::empty()
    } else {
        seq![','] + spec_quoted(ws[0]@) + spec_wallet_rest(ws.skip(1))
    }
}

/// A comma-separated list of quoted addresses.
pub open spec fn spec_wallet_list(ws: Seq<String>) -> Seq<char> {
    if ws.len() == 0 {
        Seq::empty()
    } else {
        spec_quoted(ws[0]@) + spec_wallet_rest(ws.skip(1))
    }
}

/// The text of a token or migration subscription frame.
pub open spec fn spec_encode_token(m: TokenSubscriptionMessage) -> Seq<char> {
    "{\"action\":\""@ + m.action.spec_wire() + "\",\"types\":["@ + spec_type_list(m.types@)
        + "]}"@
}

/// The text of a wallet subscription frame.
pub open spec fn spec_encode_wallet(m: WalletSubscriptionMessage) -> Seq<char> {
    "{\"action\":\""@ + m.action.spec_wire() + "\",\"wallets\":["@ + spec_wallet_list(m.wallets@)
        + "]}"@
}

/// Appends the characters of `s` to `out`.
pub(crate) fn push_str(out: &mut Vec<char>, s: &str)
    ensures
        final(out)@ == old(out)@ + s@,
{
    let n = s.unicode_len();
    let mut k: usize = 0;
    while k < n
        invariant
            n == s@.len(),
            k <= n,
            out@ == old(out)@ + s@.take(k as int),
        decreases n - k,
    {
        out.push(s.get_char(k));
        k = k + 1;
        proof {
            assert(old(out)@ + s@.take(k as int) =~= out@);
        }
    }
    proof {
        assert(old(out)@ + s@.take(n as int) =~= old(out)@ + s@);
    }
}

/// Appends one character, escaped as JSON requires.
fn push_escaped_char(out: &mut Vec<char>, c: char)
    ensures
        final(out)@ == old(out)@ + spec_escape_char(c),
{
    if c == '"' {
        out.push('\\');
        out.push('"');
        proof {
            assert(out@ =~= old(out)@ + spec_escape_char(c));
        }
    } else if c == '\\' {
        out.push('\\');
        out.push('\\');
        proof {
            assert(out@ =~= old(out)@ + spec_escape_char(c));
        }
    } else if (c as u32) < 32 {
        out.push('\\');
        out.push('u');
        out.push('0');
        out.push('0');
        let hi: u32 = (c as u32) / 16;
        let lo: u32 = (c as u32) % 16;
        out.push(hex_char_of(hi));
        out.push(hex_char_of(lo));
        proof {
            assert(out@ =~= old(out)@ + spec_escape_char(c));
        }
    } else {
        out.push(c);
        proof {
            assert(out@ =~= old(out)@ + spec_escape_char(c));
        }
    }
}

/// The hexadecimal digit character for a value below sixteen.
fn hex_char_of(d: u32) -> (r: char)
    requires
        d < 16,
    ensures
        r == hex_char(d as nat),
{
    if d == 0 {
        '0'
    } else if d == 1 {
        '1'
    } else if d == 2 {
        '2'
    } else if d == 3 {
        '3'
    } else if d == 4 {
        '4'
    } else if d == 5 {
        '5'
    } else if d == 6 {
        '6'
    } else if d == 7 {
        '7'
    } else if d == 8 {
        '8'
    } else if d == 9 {
        '9'
    } else if d == 10 {
        'a'
    } else if d == 11 {
        'b'
    } else if d == 12 {
        'c'
    } else if d == 13 {
        'd'
    } else if d == 14 {
        'e'
    } else {
        'f'
    }
}

/// Appends a string as a quoted, escaped JSON literal.
fn push_quoted(out: &mut Vec<char>, s: &str)
    ensures
        final(out)@ == old(out)@ + spec_quoted(s@),
{
    out.push('"');
    let n = s.unicode_len();
    let mut k: usize = 0;
    while k < n
        invariant
            n == s@.len(),
            k <= n,
            out@ == old(out)@ + seq!['"'] + spec_escape(s@.take(k as int)),
        decreases n - k,
    {
        let ghost before = out@;
        push_escaped_char(out, s.get_char(k));
        k = k + 1;
        proof {
            lemma_escape_snoc(s@, k as int);
            assert(out@ =~= old(out)@ + seq!['"'] + spec_escape(s@.take(k as int)));
        }
    }
    out.push('"');
    proof {
        assert(s@.take(n as int) =~= s@);
        assert(out@ =~= old(out)@ + spec_quoted(s@));
    }
}

/// Escaping a one-character extension extends the escaped text by that
/// character's escape.
proof fn lemma_escape_snoc(s: Seq<char>, k: int)
    requires
        0 < k <= s.len(),
    ensures
        spec_escape(s.take(k)) == spec_escape(s.take(k - 1)) + spec_escape_char(s[k - 1]),
    decreases k,
{
    if k == 1 {
        assert(s.take(1).skip(1) =~= Seq::<char>::empty());
        assert(s.take(0) =~= Seq::<char>::empty());
        assert(s.take(1)[0] == s[0]);
        assert(spec_escape(Seq::<char>::empty()) == Seq::<char>::empty());
        assert(spec_escape(s.take(1)) == spec_escape_char(s[0]) + Seq::<char>::empty());
        assert(spec_escape_char(s[0]) + Seq::<char>::empty() =~= spec_escape_char(s[0]));
        assert(spec_escape(s.take(0)) + spec_escape_char(s[0]) =~= spec_escape_char(s[0]));
    } else {
        lemma_escape_snoc(s.skip(1), k - 1);
        assert(s.take(k).skip(1) =~= s.skip(1).take(k - 1));
        assert(s.take(k - 1).skip(1) =~= s.skip(1).take(k - 2));
        assert(spec_escape(s.take(k)) == spec_escape_char(s[0]) + spec_escape(
            s.skip(1).take(k - 1),
        ));
        assert(spec_escape(s.take(k - 1)) == spec_escape_char(s[0]) + spec_escape(
            s.skip(1).take(k - 2),
        ));
        assert(spec_escape_char(s[0]) + (spec_escape(s.skip(1).take(k - 2)) + spec_escape_char(
            s.skip(1)[k - 2],
        )) =~= (spec_escape_char(s[0]) + spec_escape(s.skip(1).take(k - 2))) + spec_escape_char(
            s[k - 1],
        ));
    }
}

impl TokenSubscriptionMessage {
    /// The frame this message sends, as text.
    pub fn encode(&self) -> (r: String)
        ensures
            r@ == spec_encode_token(*self),
    {
        let mut out: Vec<char> = Vec::new();
        push_str(&mut out, "{\"action\":\"");
        push_str(&mut out, self.action.wire());
        push_str(&mut out, "\",\"types\":[");
        let ghost head = out@;
        let n: usize = self.types.len();
        if n > 0 {
            push_quoted(&mut out, self.types[0].wire());
            proof {
                assert(out@ + spec_type_rest(self.types@.skip(1)) =~= head + spec_type_list(
                    self.types@,
                ));
            }
            let mut k: usize = 1;
            while k < n
                invariant
                    n == self.types@.len(),
                    1 <= k <= n,
                    out@ + spec_type_rest(self.types@.skip(k as int)) == head + spec_type_list(
                        self.types@,
                    ),
                decreases n - k,
            {
                let ghost out0 = out@;
                out.push(',');
                push_quoted(&mut out, self.types[k].wire());
                proof {
                    let ghost ts = self.types@;
                    assert(ts.skip(k as int)[0] == ts[k as int]);
                    assert(ts.skip(k as int).skip(1) =~= ts.skip(k as int + 1));
                    assert(spec_type_rest(ts.skip(k as int)) == seq![','] + spec_quoted(
                        ts[k as int].spec_wire(),
                    ) + spec_type_rest(ts.skip(k as int + 1)));
                    assert(out@ =~= out0 + seq![','] + spec_quoted(ts[k as int].spec_wire()));
                    assert(out@ + spec_type_rest(ts.skip(k as int + 1)) =~= out0 + spec_type_rest(
                        ts.skip(k as int),
                    ));
                }
                k = k + 1;
            }
            proof {
                assert(self.types@.skip(n as int) =~= Seq::<SubscriptionType>::empty());
                assert(out@ + Seq::<char>::empty() =~= out@);
            }
        }
        push_str(&mut out, "]}");
        proof {
            assert(out@ =~= spec_encode_token(*self));
        }
        string_from_chars(&out)
    }
}

impl WalletSubscriptionMessage {
    /// The frame this message sends, as text.
    pub fn encode(&self) -> (r: String)
        ensures
            r@ == spec_encode_wallet(*self),
    {
        let mut out: Vec<char> = Vec::new();
        push_str(&mut out, "{\"action\":\"");
        push_str(&mut out, self.action.wire());
        push_str(&mut out, "\",\"wallets\":[");
        let ghost head = out@;
        let n: usize = self.wallets.len();
        if n > 0 {
            push_quoted(&mut out, self.wallets[0].as_str());
            proof {
                assert(out@ + spec_wallet_rest(self.wallets@.skip(1)) =~= head + spec_wallet_list(
                    self.wallets@,
                ));
            }
            let mut k: usize = 1;
            while k < n
                invariant
                    n == self.wallets@.len(),
                    1 <= k <= n,
                    out@ + spec_wallet_rest(self.wallets@.skip(k as int)) == head
                        + spec_wallet_list(self.wallets@),
                decreases n - k,
            {
                let ghost out0 = out@;
                out.push(',');
                push_quoted(&mut out, self.wallets[k].as_str());
                proof {
                    let ghost ws = self.wallets@;
                    assert(ws.skip(k as int)[0] == ws[k as int]);
                    assert(ws.skip(k as int).skip(1) =~= ws.skip(k as int + 1));
                    assert(spec_wallet_rest(ws.skip(k as int)) == seq![','] + spec_quoted(
                        ws[k as int]@,
                    ) + spec_wallet_rest(ws.skip(k as int + 1)));
                    assert(out@ =~= out0 + seq![','] + spec_quoted(ws[k as int]@));
                    assert(out@ + spec_wallet_rest(ws.skip(k as int + 1)) =~= out0
                        + spec_wallet_rest(ws.skip(k as int)));
                }
                k = k + 1;
            }
            proof {
                assert(self.wallets@.skip(n as int) =~= Seq::<String>::empty());
                assert(out@ + Seq::<char>::empty() =~= out@);
            }
        }
        push_str(&mut out, "]}");
        proof {
            assert(out@ =~= spec_encode_wallet(*self));
        }
        string_from_chars(&out)
    }
}

/// An outbound payload the session can serialize and write to the wire.
/// The token/migration and wallet message shapes both provide it.
pub trait SubscriptionPayload: Sized {
    /// The text frame this payload puts on the wire.
    spec fn spec_frame(&self) -> Seq<char>;

    /// Serializes the payload to its text frame.
    fn encode_frame(&self) -> (r: String)
        ensures
            r@ == self.spec_frame(),
    ;
}

impl SubscriptionPayload for TokenSubscriptionMessage {
    open spec fn spec_frame(&self) -> Seq<char> {
        spec_encode_token(*self)
    }

    fn encode_frame(&self) -> (r: String)
        ensures
            r@ == self.spec_frame(),
    {
        self.encode()
    }
}

impl SubscriptionPayload for WalletSubscriptionMessage {
    open spec fn spec_frame(&self) -> Seq<char> {
        spec_encode_wallet(*self)
    }

    fn encode_frame(&self) -> (r: String)
        ensures
            r@ == self.spec_frame(),
    {
        self.encode()
    }
}

} // verus!

// ---------------------------------------------------------------------------
// The wire decoding: reads exactly the frames the encoders write.
// ---------------------------------------------------------------------------

verus! {

/// The action a wire name stands for.
pub open spec fn action_of_wire(w: Seq<char>) -> Option<SubscriptionMessageType> {
    if w == "subscribe"@ {
        Some(SubscriptionMessageType::Subscribe)
    } else if w == "unsubscribe"@ {
        Some(SubscriptionMessageType::Unsubscribe)
    } else {
        None
    }
}

/// The category a wire name stands for.
pub open spec fn type_of_wire(w: Seq<char>) -> Option<SubscriptionType> {
    if w == "PumpfunTokens"@ {
        Some(SubscriptionType::PumpfunTokens)
    } else if w == "RaydiumAmmTokens"@ {
        Some(SubscriptionType::RaydiumAmmTokens)
    } else if w == "RaydiumCpmmTokens"@ {
        Some(SubscriptionType::RaydiumCpmmTokens)
    } else if w == "RaydiumClmmTokens"@ {
        Some(SubscriptionType::RaydiumClmmTokens)
    } else {
        None
    }
}

/// The views of a sequence of strings.
pub open spec fn strings_of(ws: Seq<String>) -> Seq<Seq<char>> {
    Seq::new(
        ws.len(),
        |i: int|
            if 0 <= i < ws.len() {
                ws[i]@
            } else {
                Seq::<char>::empty()
            },
    )
}

/// Reads a non-empty category list positioned at its first quote, followed
/// by exactly `]}`.
pub open spec fn spec_decode_types(s: Seq<char>) -> Option<Seq<SubscriptionType>>
    decreases s.len(),
{
    if s.len() == 0 || s[0] != '"' {
        None
    } else {
        match crate::json::sp_string_body(s.skip(1)) {
            Some((n, w)) => match type_of_wire(w) {
                Some(t) => {
                    if 1 + n <= s.len() {
                        let s2 = s.skip(1 + n as int);
                        if s2 == "]}"@ {
                            Some(seq![t])
                        } else if s2.len() > 0 && s2[0] == ',' {
                            match spec_decode_types(s2.skip(1)) {
                                Some(ts) => Some(seq![t] + ts),
                                None => None,
                            }
                        } else {
                            None
                        }
                    } else {
                        None
                    }
                },
                None => None,
            },
            None => None,
        }
    }
}

/// Reads a non-empty address list positioned at its first quote, followed
/// by exactly `]}`.
pub open spec fn spec_decode_wallets(s: Seq<char>) -> Option<Seq<Seq<char>>>
    decreases s.len(),
{
    if s.len() == 0 || s[0] != '"' {
        None
    } else {
        match crate::json::sp_string_body(s.skip(1)) {
            Some((n, w)) => {
                if 1 + n <= s.len() {
                    let s2 = s.skip(1 + n as int);
                    if s2 == "]}"@ {
                        Some(seq![w])
                    } else if s2.len() > 0 && s2[0] == ',' {
                        match spec_decode_wallets(s2.skip(1)) {
                            Some(ws) => Some(seq![w] + ws),
                            None => None,
                        }
                    } else {
                        None
                    }
                } else {
                    None
                }
            },
            None => None,
        }
    }
}

/// Reads a token or migration subscription frame in the exact form the
/// encoder writes: the action and the category list.
pub open spec fn spec_decode_token(s: Seq<char>) -> Option<
    (SubscriptionMessageType, Seq<SubscriptionType>),
> {
    let p0 = "{\"action\":\""@;
    if s.len() < p0.len() || s.take(p0.len() as int) != p0 {
        None
    } else {
        match crate::json::sp_string_body(s.skip(p0.len() as int)) {
            Some((n, w)) => match action_of_wire(w) {
                Some(action) => {
                    if p0.len() + n <= s.len() {
                        let s2 = s.skip((p0.len() + n) as int);
                        let p1 = ",\"types\":["@;
                        if s2.len() < p1.len() || s2.take(p1.len() as int) != p1 {
                            None
                        } else {
                            let s3 = s2.skip(p1.len() as int);
                            if s3 == "]}"@ {
                                Some((action, Seq::empty()))
                            } else {
                                match spec_decode_types(s3) {
                                    Some(ts) => Some((action, ts)),
                                    None => None,
                                }
                            }
                        }
                    } else {
                        None
                    }
                },
                None => None,
            },
            None => None,
        }
    }
}

/// Reads a wallet subscription frame in the exact form the encoder writes:
/// the action and the address list.
pub open spec fn spec_decode_wallet(s: Seq<char>) -> Option<
    (SubscriptionMessageType, Seq<Seq<char>>),
> {
    let p0 = "{\"action\":\""@;
    if s.len() < p0.len() || s.take(p0.len() as int) != p0 {
        None
    } else {
        match crate::json::sp_string_body(s.skip(p0.len() as int)) {
            Some((n, w)) => match action_of_wire(w) {
                Some(action) => {
                    if p0.len() + n <= s.len() {
                        let s2 = s.skip((p0.len() + n) as int);
                        let p1 = ",\"wallets\":["@;
                        if s2.len() < p1.len() || s2.take(p1.len() as int) != p1 {
                            None
                        } else {
                            let s3 = s2.skip(p1.len() as int);
                            if s3 == "]}"@ {
                                Some((action, Seq::empty()))
                            } else {
                                match spec_decode_wallets(s3) {
                                    Some(ws) => Some((action, ws)),
                                    None => None,
                                }
                            }
                        }
                    } else {
                        None
                    }
                },
                None => None,
            },
            None => None,
        }
    }
}

/// Escaping a name with no quote, backslash or control character leaves it
/// unchanged.
pub proof fn lemma_escape_plain_eq(s: Seq<char>)
    requires
        forall|i: int| 0 <= i < s.len() ==> s[i] != '"' && s[i] != '\\' && (s[i] as u32) >= 32,
    ensures
        spec_escape(s) == s,
    decreases s.len(),
{
    if s.len() > 0 {
        assert(forall|i: int| 0 <= i < s.len() - 1 ==> s.skip(1)[i] == s[i + 1]);
        lemma_escape_plain_eq(s.skip(1));
        assert(spec_escape_char(s[0]) + s.skip(1) =~= s);
    }
}

/// Reading a string body back from an escaped string, its closing quote and
/// a tail yields exactly the original string, consuming the escaped text
/// and the quote.
pub proof fn lemma_unescape_escape(w: Seq<char>, rest: Seq<char>)
    ensures
        crate::json::sp_string_body(spec_escape(w) + seq!['"'] + rest) == Some(
            ((spec_escape(w).len() + 1) as nat, w),
        ),
    decreases w.len(),
{
    reveal(crate::json::sp_string_body);
    let s = spec_escape(w) + seq!['"'] + rest;
    if w.len() == 0 {
        assert(spec_escape(w) =~= Seq::<char>::empty());
        assert(s =~= seq!['"'] + rest);
        assert(s[0] == '"');
    } else {
        let c = w[0];
        let w1 = w.skip(1);
        lemma_unescape_escape(w1, rest);
        let tail = spec_escape(w1) + seq!['"'] + rest;
        assert(spec_escape(w) == spec_escape_char(c) + spec_escape(w1));
        if c == '"' || c == '\\' {
            assert(s[0] == '\\');
            assert(s[1] == (if c == '"' {
                '"'
            } else {
                '\\'
            }));
            assert(short_unescape(s[1]) == Some(c));
            assert(s.skip(2) =~= tail);
            assert(seq![c] + w1 =~= w);
        } else if (c as u32) < 32 {
            let hi = ((c as u32) / 16) as nat;
            let lo = ((c as u32) % 16) as nat;
            assert(s[0] == '\\');
            assert(s[1] == 'u');
            assert(s[2] == '0');
            assert(s[3] == '0');
            assert(s[4] == hex_char(hi));
            assert(s[5] == hex_char(lo));
            lemma_hex_char_val(hi);
            lemma_hex_char_val(lo);
            assert(crate::text::hex_val(s[2]) == 0 && crate::text::hex_val(s[3]) == 0);
            let code = crate::text::hex4_val(s[2], s[3], s[4], s[5]);
            assert(code == c as u32);
            lemma_char_of_code(code, c);
            assert(s.skip(6) =~= tail);
            assert(seq![c] + w1 =~= w);
        } else {
            assert(s[0] == c);
            assert(s.skip(1) =~= tail);
            assert(seq![c] + w1 =~= w);
        }
    }
}

/// A valid code point names exactly the character it came from.
proof fn lemma_char_of_code(code: nat, c: char)
    requires
        code == c as u32,
        code < 0xD800,
    ensures
        (code as char) == c,
{
    assert((code as char) as u32 == code);
}

/// The hexadecimal digit character of a value below sixteen reads back as
/// that value.
pub proof fn lemma_hex_char_val(d: nat)
    requires
        d < 16,
    ensures
        crate::text::is_hex_digit(hex_char(d)),
        crate::text::hex_val(hex_char(d)) == d,
{
}

} // verus!

// ---------------------------------------------------------------------------
// Decoding a frame the encoder wrote yields the message it came from.
// ---------------------------------------------------------------------------

verus! {

/// An action's wire name needs no escaping and reads back as that action.
proof fn lemma_action_wire(a: SubscriptionMessageType)
    ensures
        spec_escape(a.spec_wire()) == a.spec_wire(),
        action_of_wire(a.spec_wire()) == Some(a),
{
    reveal_strlit("subscribe");
    reveal_strlit("unsubscribe");
    match a {
        SubscriptionMessageType::Subscribe => {
            lemma_escape_plain_eq("subscribe"@);
        },
        SubscriptionMessageType::Unsubscribe => {
            lemma_escape_plain_eq("unsubscribe"@);
        },
    }
}

/// A category's wire name needs no escaping and reads back as that category.
proof fn lemma_type_wire(t: SubscriptionType)
    ensures
        spec_escape(t.spec_wire()) == t.spec_wire(),
        type_of_wire(t.spec_wire()) == Some(t),
{
    reveal_strlit("PumpfunTokens");
    reveal_strlit("RaydiumAmmTokens");
    reveal_strlit("RaydiumCpmmTokens");
    reveal_strlit("RaydiumClmmTokens");
    match t {
        SubscriptionType::PumpfunTokens => {
            lemma_escape_plain_eq("PumpfunTokens"@);
        },
        SubscriptionType::RaydiumAmmTokens => {
            lemma_escape_plain_eq("RaydiumAmmTokens"@);
        },
        SubscriptionType::RaydiumCpmmTokens => {
            lemma_escape_plain_eq("RaydiumCpmmTokens"@);
            assert("RaydiumCpmmTokens"@[8] == 'p');
        },
        SubscriptionType::RaydiumClmmTokens => {
            lemma_escape_plain_eq("RaydiumClmmTokens"@);
            assert("RaydiumClmmTokens"@[8] == 'l');
            assert("RaydiumCpmmTokens"@ != "RaydiumClmmTokens"@);
        },
    }
}

/// Reading back an encoded, non-empty category list followed by `]}` yields
/// the categories.
#[verifier::rlimit(100)]
#[verifier::spinoff_prover]
proof fn lemma_decode_types_encoded(ts: Seq<SubscriptionType>)
    requires
        ts.len() >= 1,
    ensures
        spec_decode_types(spec_type_list(ts) + "]}"@) == Some(ts),
    decreases ts.len(),
{
    reveal_strlit("]}");
    let s = spec_type_list(ts) + "]}"@;
    let t0 = ts[0];
    let w = t0.spec_wire();
    lemma_type_wire(t0);
    let rest_txt = spec_type_rest(ts.skip(1)) + "]}"@;
    assert(s =~= seq!['"'] + (spec_escape(w) + seq!['"'] + rest_txt));
    assert(s[0] == '"');
    assert(s.skip(1) =~= spec_escape(w) + seq!['"'] + rest_txt);
    lemma_unescape_escape(w, rest_txt);
    let n = (spec_escape(w).len() + 1) as nat;
    assert(1 + n <= s.len());
    assert(s.skip(1 + n as int) =~= rest_txt);
    if ts.len() == 1 {
        assert(ts.skip(1) =~= Seq::<SubscriptionType>::empty());
        assert(rest_txt =~= "]}"@);
        assert(seq![t0] =~= ts);
    } else {
        let ts1 = ts.skip(1);
        assert(ts1.len() >= 1);
        assert(ts1[0] == ts[1]);
        assert(rest_txt =~= seq![','] + (spec_quoted(ts1[0].spec_wire()) + spec_type_rest(
            ts1.skip(1),
        ) + "]}"@));
        assert(rest_txt[0] == ',');
        assert(rest_txt != "]}"@);
        lemma_decode_types_encoded(ts1);
        assert(rest_txt.skip(1) =~= spec_type_list(ts1) + "]}"@);
        assert(seq![t0] + ts1 =~= ts);
    }
}

/// Reading back an encoded, non-empty address list followed by `]}` yields
/// the addresses.
#[verifier::rlimit(100)]
#[verifier::spinoff_prover]
proof fn lemma_decode_wallets_encoded(ws: Seq<String>)
    requires
        ws.len() >= 1,
    ensures
        spec_decode_wallets(spec_wallet_list(ws) + "]}"@) == Some(strings_of(ws)),
    decreases ws.len(),
{
    reveal_strlit("]}");
    let s = spec_wallet_list(ws) + "]}"@;
    let w = ws[0]@;
    let rest_txt = spec_wallet_rest(ws.skip(1)) + "]}"@;
    assert(s =~= seq!['"'] + (spec_escape(w) + seq!['"'] + rest_txt));
    assert(s[0] == '"');
    assert(s.skip(1) =~= spec_escape(w) + seq!['"'] + rest_txt);
    lemma_unescape_escape(w, rest_txt);
    let n = (spec_escape(w).len() + 1) as nat;
    assert(1 + n <= s.len());
    assert(s.skip(1 + n as int) =~= rest_txt);
    if ws.len() == 1 {
        assert(ws.skip(1) =~= Seq::<String>::empty());
        assert(rest_txt =~= "]}"@);
        assert(seq![w] =~= strings_of(ws));
    } else {
        let ws1 = ws.skip(1);
        assert(ws1.len() >= 1);
        assert(ws1[0] == ws[1]);
        assert(rest_txt =~= seq![','] + (spec_quoted(ws1[0]@) + spec_wallet_rest(ws1.skip(1))
            + "]}"@));
        assert(rest_txt[0] == ',');
        assert(rest_txt != "]}"@);
        lemma_decode_wallets_encoded(ws1);
        assert(rest_txt.skip(1) =~= spec_wallet_list(ws1) + "]}"@);
        assert(seq![w] + strings_of(ws1) =~= strings_of(ws));
    }
}

/// Round trip for the token and migration feeds: decoding the text a
/// subscription message encodes to yields the original action and category
/// list, whatever they are.
pub proof fn lemma_token_round_trip(m: TokenSubscriptionMessage)
    ensures
        spec_decode_token(spec_encode_token(m)) == Some((m.action, m.types@)),
{
    reveal_strlit("{\"action\":\"");
    reveal_strlit("\",\"types\":[");
    reveal_strlit(",\"types\":[");
    reveal_strlit("]}");
    let s = spec_encode_token(m);
    let p0 = "{\"action\":\""@;
    let wire = m.action.spec_wire();
    lemma_action_wire(m.action);
    let p1b = ",\"types\":["@;
    let list_txt = spec_type_list(m.types@);
    assert("\",\"types\":["@ =~= seq!['"'] + p1b);
    assert(s =~= p0 + (spec_escape(wire) + seq!['"'] + (p1b + list_txt + "]}"@)));
    assert(s.take(p0.len() as int) =~= p0);
    assert(s.skip(p0.len() as int) =~= spec_escape(wire) + seq!['"'] + (p1b + list_txt
        + "]}"@));
    lemma_unescape_escape(wire, p1b + list_txt + "]}"@);
    let n = (spec_escape(wire).len() + 1) as nat;
    assert(p0.len() + n <= s.len());
    let s2 = s.skip((p0.len() + n) as int);
    assert(s2 =~= p1b + (list_txt + "]}"@));
    assert(s2.take(p1b.len() as int) =~= p1b);
    let s3 = s2.skip(p1b.len() as int);
    assert(s3 =~= list_txt + "]}"@);
    if m.types@.len() == 0 {
        assert(list_txt =~= Seq::<char>::empty());
        assert(s3 =~= "]}"@);
        assert(m.types@ =~= Seq::<SubscriptionType>::empty());
    } else {
        assert(spec_quoted(m.types@[0].spec_wire()).len() >= 2);
        assert(s3.len() > 2);
        assert(s3 != "]}"@);
        lemma_decode_types_encoded(m.types@);
    }
}

/// Round trip for the wallet feed: decoding the text a wallet subscription
/// message encodes to yields the original action and address list, whatever
/// the addresses hold.
pub proof fn lemma_wallet_round_trip(m: WalletSubscriptionMessage)
    ensures
        spec_decode_wallet(spec_encode_wallet(m)) == Some((m.action, strings_of(m.wallets@))),
{
    reveal_strlit("{\"action\":\"");
    reveal_strlit("\",\"wallets\":[");
    reveal_strlit(",\"wallets\":[");
    reveal_strlit("]}");
    let s = spec_encode_wallet(m);
    let p0 = "{\"action\":\""@;
    let wire = m.action.spec_wire();
    lemma_action_wire(m.action);
    let p1b = ",\"wallets\":["@;
    let list_txt = spec_wallet_list(m.wallets@);
    assert("\",\"wallets\":["@ =~= seq!['"'] + p1b);
    assert(s =~= p0 + (spec_escape(wire) + seq!['"'] + (p1b + list_txt + "]}"@)));
    assert(s.take(p0.len() as int) =~= p0);
    assert(s.skip(p0.len() as int) =~= spec_escape(wire) + seq!['"'] + (p1b + list_txt
        + "]}"@));
    lemma_unescape_escape(wire, p1b + list_txt + "]}"@);
    let n = (spec_escape(wire).len() + 1) as nat;
    assert(p0.len() + n <= s.len());
    let s2 = s.skip((p0.len() + n) as int);
    assert(s2 =~= p1b + (list_txt + "]}"@));
    assert(s2.take(p1b.len() as int) =~= p1b);
    let s3 = s2.skip(p1b.len() as int);
    assert(s3 =~= list_txt + "]}"@);
    if m.wallets@.len() == 0 {
        assert(list_txt =~= Seq::<char>::empty());
        assert(s3 =~= "]}"@);
        assert(strings_of(m.wallets@) =~= Seq::<Seq<char>>::empty());
    } else {
        assert(spec_quoted(m.wallets@[0]@).len() >= 2);
        assert(s3.len() > 2);
        assert(s3 != "]}"@);
        lemma_decode_wallets_encoded(m.wallets@);
    }
}

} // verus!

// ---------------------------------------------------------------------------
// The executable decoders.
// ---------------------------------------------------------------------------

verus! {

/// Whether the characters at index `i` begin with the given word.
fn has_prefix_at(s: &Vec<char>, i: usize, lit: &str) -> (r: bool)
    requires
        i <= s@.len(),
    ensures
        r == (i + lit@.len() <= s@.len() && s@.skip(i as int).take(lit@.len() as int) == lit@),
{
    let n = lit.unicode_len();
    let slen = s.len();
    if slen - i < n {
        return false;
    }
    let mut k: usize = 0;
    while k < n
        invariant
            n == lit@.len(),
            slen == s@.len(),
            i + n <= slen,
            k <= n,
            forall|t: int| 0 <= t < k ==> s@[i + t] == lit@[t],
        decreases n - k,
    {
        if s[i + k] != lit.get_char(k) {
            proof {
                assert(s@.skip(i as int).take(n as int)[k as int] == s@[i + k]);
            }
            return false;
        }
        k = k + 1;
    }
    proof {
        assert(s@.skip(i as int).take(n as int) =~= lit@);
    }
    true
}

/// Maps a gathered wire name to its action.
fn action_from_chars(w: &Vec<char>) -> (r: Option<SubscriptionMessageType>)
    ensures
        r == action_of_wire(w@),
{
    if crate::text::vec_eq_str(w, "subscribe") {
        Some(SubscriptionMessageType::Subscribe)
    } else if crate::text::vec_eq_str(w, "unsubscribe") {
        Some(SubscriptionMessageType::Unsubscribe)
    } else {
        None
    }
}

/// Maps a gathered wire name to its category.
fn type_from_chars(w: &Vec<char>) -> (r: Option<SubscriptionType>)
    ensures
        r == type_of_wire(w@),
{
    if crate::text::vec_eq_str(w, "PumpfunTokens") {
        Some(SubscriptionType::PumpfunTokens)
    } else if crate::text::vec_eq_str(w, "RaydiumAmmTokens") {
        Some(SubscriptionType::RaydiumAmmTokens)
    } else if crate::text::vec_eq_str(w, "RaydiumCpmmTokens") {
        Some(SubscriptionType::RaydiumCpmmTokens)
    } else if crate::text::vec_eq_str(w, "RaydiumClmmTokens") {
        Some(SubscriptionType::RaydiumClmmTokens)
    } else {
        None
    }
}

/// Whether the characters from index `i` to the end are exactly `]}`.
fn closes_at(s: &Vec<char>, i: usize) -> (r: bool)
    requires
        i <= s@.len(),
    ensures
        r == (s@.skip(i as int) == "]}"@),
{
    proof {
        reveal_strlit("]}");
    }
    let two = s.len() - i == 2;
    let pre = has_prefix_at(s, i, "]}");
    proof {
        assert("]}"@.len() == 2);
        if s@.len() - i == 2 {
            assert(s@.skip(i as int).take(2) =~= s@.skip(i as int));
        } else {
            assert(s@.skip(i as int).len() != 2);
        }
    }
    two && pre
}

/// Reads a non-empty category list at index `i`, expecting it to run to the
/// end of the text.
fn p_decode_types(s: &Vec<char>, i: usize) -> (r: Option<Vec<SubscriptionType>>)
    requires
        i <= s@.len(),
    ensures
        match r {
            Some(ts) => spec_decode_types(s@.skip(i as int)) == Some(ts@),
            None => spec_decode_types(s@.skip(i as int)) is None,
        },
    decreases s@.len() - i,
{
    let ghost u = s@.skip(i as int);
    if i == s.len() {
        return None;
    }
    proof {
        assert(u[0] == s@[i as int]);
    }
    if s[i] != '"' {
        return None;
    }
    proof {
        assert(u.skip(1) =~= s@.skip(i as int + 1));
    }
    match crate::json::p_string_body(s, i + 1) {
        None => {
            return None;
        },
        Some((j, w)) => {
            match type_from_chars(&w) {
                None => {
                    return None;
                },
                Some(t) => {
                    proof {
                        assert(u.skip((j - i) as int) =~= s@.skip(j as int));
                    }
                    if closes_at(s, j) {
                        let mut ts: Vec<SubscriptionType> = Vec::new();
                        ts.push(t);
                        proof {
                            assert(ts@ =~= seq![t]);
                        }
                        return Some(ts);
                    }
                    if j == s.len() {
                        return None;
                    }
                    proof {
                        assert(s@.skip(j as int)[0] == s@[j as int]);
                    }
                    if s[j] != ',' {
                        return None;
                    }
                    proof {
                        assert(s@.skip(j as int).skip(1) =~= s@.skip(j as int + 1));
                    }
                    match p_decode_types(s, j + 1) {
                        None => {
                            return None;
                        },
                        Some(rest) => {
                            let ghost rest0 = rest@;
                            let mut ts: Vec<SubscriptionType> = Vec::new();
                            ts.push(t);
                            let mut rest_m = rest;
                            ts.append(&mut rest_m);
                            proof {
                                assert(ts@ =~= seq![t] + rest0);
                            }
                            return Some(ts);
                        },
                    }
                },
            }
        },
    }
}

/// Reads a non-empty address list at index `i`, expecting it to run to the
/// end of the text.
fn p_decode_wallets(s: &Vec<char>, i: usize) -> (r: Option<Vec<String>>)
    requires
        i <= s@.len(),
    ensures
        match r {
            Some(ws) => spec_decode_wallets(s@.skip(i as int)) == Some(strings_of(ws@)),
            None => spec_decode_wallets(s@.skip(i as int)) is None,
        },
    decreases s@.len() - i,
{
    let ghost u = s@.skip(i as int);
    if i == s.len() {
        return None;
    }
    proof {
        assert(u[0] == s@[i as int]);
    }
    if s[i] != '"' {
        return None;
    }
    proof {
        assert(u.skip(1) =~= s@.skip(i as int + 1));
    }
    match crate::json::p_string_body(s, i + 1) {
        None => {
            return None;
        },
        Some((j, w)) => {
            let addr = string_from_chars(&w);
            proof {
                assert(u.skip((j - i) as int) =~= s@.skip(j as int));
            }
            if closes_at(s, j) {
                let mut ws: Vec<String> = Vec::new();
                ws.push(addr);
                proof {
                    assert(strings_of(ws@) =~= seq![w@]);
                }
                return Some(ws);
            }
            if j == s.len() {
                return None;
            }
            proof {
                assert(s@.skip(j as int)[0] == s@[j as int]);
            }
            if s[j] != ',' {
                return None;
            }
            proof {
                assert(s@.skip(j as int).skip(1) =~= s@.skip(j as int + 1));
            }
            match p_decode_wallets(s, j + 1) {
                None => {
                    return None;
                },
                Some(rest) => {
                    let ghost rest0 = rest@;
                    let mut ws: Vec<String> = Vec::new();
                    ws.push(addr);
                    let mut rest_m = rest;
                    ws.append(&mut rest_m);
                    proof {
                        assert(strings_of(ws@) =~= seq![w@] + strings_of(rest0));
                    }
                    return Some(ws);
                },
            }
        },
    }
}

impl TokenSubscriptionMessage {
    /// Reads back a frame this library writes for the token or migration
    /// feeds; texts in any other form yield nothing.
    #[verifier::rlimit(100)]
    #[verifier::spinoff_prover]
    pub fn decode(text: &str) -> (r: Option<TokenSubscriptionMessage>)
        ensures
            match r {
                Some(m) => spec_decode_token(text@) == Some((m.action, m.types@)),
                None => spec_decode_token(text@) is None,
            },
    {
        let s = chars_of(text);
        proof {
            assert(s@.skip(0) =~= s@);
        }
        if !has_prefix_at(&s, 0, "{\"action\":\"") {
            return None;
        }
        let p0n = "{\"action\":\"".unicode_len();
        match crate::json::p_string_body(&s, p0n) {
            None => {
                return None;
            },
            Some((j, w)) => {
                let action = match action_from_chars(&w) {
                    Some(a) => a,
                    None => {
                        return None;
                    },
                };
                proof {
                    assert(s@.skip((p0n + (j - p0n)) as int) =~= s@.skip(j as int));
                }
                if !has_prefix_at(&s, j, ",\"types\":[") {
                    return None;
                }
                let p1n = ",\"types\":[".unicode_len();
                let slen: usize = s.len();
                proof {
                    assert(j + p1n <= slen);
                }
                let s3i = j + p1n;
                proof {
                    assert(s@.skip(j as int).skip(p1n as int) =~= s@.skip(s3i as int));
                }
                if closes_at(&s, s3i) {
                    let ts: Vec<SubscriptionType> = Vec::new();
                    proof {
                        assert(ts@ =~= Seq::<SubscriptionType>::empty());
                    }
                    return Some(TokenSubscriptionMessage { action, types: ts });
                }
                match p_decode_types(&s, s3i) {
                    Some(ts) => Some(TokenSubscriptionMessage { action, types: ts }),
                    None => None,
                }
            },
        }
    }
}

impl WalletSubscriptionMessage {
    /// Reads back a frame this library writes for the wallet feed; texts in
    /// any other form yield nothing.
    #[verifier::rlimit(100)]
    #[verifier::spinoff_prover]
    pub fn decode(text: &str) -> (r: Option<WalletSubscriptionMessage>)
        ensures
            match r {
                Some(m) => spec_decode_wallet(text@) == Some((m.action, strings_of(m.wallets@))),
                None => spec_decode_wallet(text@) is None,
            },
    {
        let s = chars_of(text);
        proof {
            assert(s@.skip(0) =~= s@);
        }
        if !has_prefix_at(&s, 0, "{\"action\":\"") {
            return None;
        }
        let p0n = "{\"action\":\"".unicode_len();
        match crate::json::p_string_body(&s, p0n) {
            None => {
                return None;
            },
            Some((j, w)) => {
                let action = match action_from_chars(&w) {
                    Some(a) => a,
                    None => {
                        return None;
                    },
                };
                proof {
                    assert(s@.skip((p0n + (j - p0n)) as int) =~= s@.skip(j as int));
                }
                if !has_prefix_at(&s, j, ",\"wallets\":[") {
                    return None;
                }
                let p1n = ",\"wallets\":[".unicode_len();
                let slen: usize = s.len();
                proof {
                    assert(j + p1n <= slen);
                }
                let s3i = j + p1n;
                proof {
                    assert(s@.skip(j as int).skip(p1n as int) =~= s@.skip(s3i as int));
                }
                if closes_at(&s, s3i) {
                    let ws: Vec<String> = Vec::new();
                    proof {
                        assert(strings_of(ws@) =~= Seq::<Seq<char>>::empty());
                    }
                    return Some(WalletSubscriptionMessage { action, wallets: ws });
                }
                match p_decode_wallets(&s, s3i) {
                    Some(ws) => Some(WalletSubscriptionMessage { action, wallets: ws }),
                    None => None,
                }
            },
        }
    }
}

} // verus!
