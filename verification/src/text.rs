//! Character-level helpers shared by the wire codec, the JSON reader and the
//! header parsers: classification of characters, decimal values, and the
//! conversions between `String` and `Vec<char>`.

use vstd::prelude::*;

verus! {

/// JSON insignificant whitespace.
pub open spec fn is_ws(c: char) -> bool {
    c == ' ' || c == '\t' || c == '\n' || c == '\r'
}

/// An ASCII decimal digit.
pub open spec fn is_digit(c: char) -> bool {
    '0' <= c && c <= '9'
}

/// The numeric value of a decimal digit.
pub open spec fn digit_val(c: char) -> nat {
    (c as u32 - '0' as u32) as nat
}

/// An ASCII hexadecimal digit, either case.
pub open spec fn is_hex_digit(c: char) -> bool {
    is_digit(c) || ('a' <= c && c <= 'f') || ('A' <= c && c <= 'F')
}

/// The numeric value of a hexadecimal digit.
pub open spec fn hex_val(c: char) -> nat {
    if is_digit(c) {
        digit_val(c)
    } else if 'a' <= c && c <= 'f' {
        (c as u32 - 'a' as u32 + 10) as nat
    } else {
        (c as u32 - 'A' as u32 + 10) as nat
    }
}

/// The value of four hexadecimal digits, most significant first.
pub open spec fn hex4_val(a: char, b: char, c: char, d: char) -> nat {
    ((hex_val(a) * 16 + hex_val(b)) * 16 + hex_val(c)) * 16 + hex_val(d)
}

/// Whether a code point is a unicode scalar value: not a surrogate, and at
/// most the last code point.
pub open spec fn is_scalar(code: nat) -> bool {
    code < 0xD800 || (0xE000 <= code && code <= 0x10FFFF)
}

/// The value of a sequence of decimal digits, most significant first.
pub open spec fn dec_val(s: Seq<char>) -> nat
    decreases s.len(),
{
    if s.len() == 0 {
        0
    } else {
        dec_val(s.drop_last()) * 10 + digit_val(s.last())
    }
}

/// Holds when every character of `s` is a decimal digit.
pub open spec fn all_digits(s: Seq<char>) -> bool {
    forall|i: int| 0 <= i < s.len() ==> is_digit(#[trigger] s[i])
}

/// Classifies one character as JSON whitespace.
pub fn ws_char(c: char) -> (r: bool)
    ensures
        r == is_ws(c),
{
    c == ' ' || c == '\t' || c == '\n' || c == '\r'
}

/// Classifies one character as a decimal digit.
pub fn digit_char(c: char) -> (r: bool)
    ensures
        r == is_digit(c),
{
    '0' <= c && c <= '9'
}

/// Classifies one character as a hexadecimal digit.
pub fn hex_digit_char(c: char) -> (r: bool)
    ensures
        r == is_hex_digit(c),
{
    ('0' <= c && c <= '9') || ('a' <= c && c <= 'f') || ('A' <= c && c <= 'F')
}

/// The numeric value of a hexadecimal digit character.
pub fn hex_digit_val(c: char) -> (r: u32)
    requires
        is_hex_digit(c),
    ensures
        r == hex_val(c),
{
    if '0' <= c && c <= '9' {
        c as u32 - '0' as u32
    } else if 'a' <= c && c <= 'f' {
        c as u32 - 'a' as u32 + 10
    } else {
        c as u32 - 'A' as u32 + 10
    }
}

/// Copies the characters of a string slice into a vector.
pub fn chars_of(s: &str) -> (r: Vec<char>)
    ensures
        r@ == s@,
{
    let n = s.unicode_len();
    let mut r: Vec<char> = Vec::new();
    let mut i: usize = 0;
    while i < n
        invariant
            n == s@.len(),
            i <= n,
            r@ == s@.take(i as int),
        decreases n - i,
    {
        let c = s.get_char(i);
        r.push(c);
        i = i + 1;
        proof {
            assert(r@ =~= s@.take(i as int));
        }
    }
    proof {
        assert(s@.take(n as int) =~= s@);
    }
    r
}

/// Builds the character with the given code point.
///
/// Relies on `char::from_u32`: for a valid unicode scalar value — not a
/// surrogate, at most the last code point — it returns the character with
/// exactly that code point.
#[verifier::external_body]
pub fn char_from_code(code: u32) -> (r: char)
    requires
        is_scalar(code as nat),
    ensures
        r as u32 == code,
{
    char::from_u32(code).unwrap()
}

/// Collects a vector of characters into an owned string.
///
/// Relies on `String`'s `FromIterator<char>` implementation: collecting
/// characters yields the string with exactly those characters in order.
#[verifier::external_body]
pub fn string_from_chars(v: &Vec<char>) -> (r: String)
    ensures
        r@ == v@,
{
    v.iter().collect()
}

/// Compares two string slices character by character.
pub fn str_eq(a: &str, b: &str) -> (r: bool)
    ensures
        r == (a@ == b@),
{
    let na = a.unicode_len();
    let nb = b.unicode_len();
    if na != nb {
        return false;
    }
    let mut i: usize = 0;
    while i < na
        invariant
            na == a@.len(),
            na == b@.len(),
            i <= na,
            forall|k: int| 0 <= k < i ==> a@[k] == b@[k],
        decreases na - i,
    {
        if a.get_char(i) != b.get_char(i) {
            return false;
        }
        i = i + 1;
    }
    proof {
        assert(a@ =~= b@);
    }
    true
}

} // verus!

// ---------------------------------------------------------------------------
// Integer number texts.
// ---------------------------------------------------------------------------

verus! {

/// Ten to the `k`.
pub open spec fn pow10(k: nat) -> nat
    decreases k,
{
    if k == 0 {
        1
    } else {
        10 * pow10((k - 1) as nat)
    }
}

/// A digit string's value stays below ten to its length.
pub proof fn lemma_dec_val_upper(s: Seq<char>)
    requires
        all_digits(s),
    ensures
        dec_val(s) < pow10(s.len()),
    decreases s.len(),
{
    if s.len() == 0 {
    } else {
        assert(forall|i: int| 0 <= i < s.len() - 1 ==> s.drop_last()[i] == s[i]);
        lemma_dec_val_upper(s.drop_last());
        assert(is_digit(s.last()));
        assert(digit_val(s.last()) <= 9);
    }
}

/// Ten to the power is monotonic.
pub proof fn lemma_pow10_mono(a: nat, b: nat)
    requires
        a <= b,
    ensures
        pow10(a) <= pow10(b),
    decreases b,
{
    if a < b {
        lemma_pow10_mono(a, (b - 1) as nat);
        assert(pow10(b) == 10 * pow10((b - 1) as nat));
        assert(pow10((b - 1) as nat) >= 1) by {
            lemma_pow10_pos((b - 1) as nat);
        }
    }
}

/// Ten to any power is positive.
pub proof fn lemma_pow10_pos(k: nat)
    ensures
        pow10(k) >= 1,
    decreases k,
{
    if k > 0 {
        lemma_pow10_pos((k - 1) as nat);
    }
}

/// Nineteen digits stay within sixty-four bits.
pub proof fn lemma_pow10_19()
    ensures
        pow10(19) == 10000000000000000000,
{
    reveal_with_fuel(pow10, 21);
}

/// The integer a number text denotes, when it is an optional minus sign
/// followed by one to nineteen decimal digits. Wider digit runs, fractions
/// and exponents denote no integer here.
pub open spec fn int_of_num_text(s: Seq<char>) -> Option<int> {
    if s.len() > 0 && s[0] == '-' {
        let d = s.skip(1);
        if 1 <= d.len() <= 19 && all_digits(d) {
            Some(-(dec_val(d) as int))
        } else {
            None
        }
    } else {
        if 1 <= s.len() <= 19 && all_digits(s) {
            Some(dec_val(s) as int)
        } else {
            None
        }
    }
}

/// Reads the value of the digit characters `s[from .. to]`.
pub fn digits_value(s: &Vec<char>, from: usize, to: usize) -> (r: u64)
    requires
        from <= to <= s@.len(),
        to - from <= 19,
        all_digits(s@.subrange(from as int, to as int)),
    ensures
        r == dec_val(s@.subrange(from as int, to as int)),
{
    proof {
        lemma_pow10_19();
    }
    let mut acc: u64 = 0;
    let mut k: usize = from;
    proof {
        assert(s@.subrange(from as int, from as int) =~= Seq::<char>::empty());
    }
    while k < to
        invariant
            from <= k <= to <= s@.len(),
            to - from <= 19,
            all_digits(s@.subrange(from as int, to as int)),
            acc == dec_val(s@.subrange(from as int, k as int)),
            pow10(19) == 10000000000000000000,
        decreases to - k,
    {
        let ghost pre = s@.subrange(from as int, k as int);
        let ghost cur = s@.subrange(from as int, k as int + 1);
        proof {
            assert(forall|i: int| 0 <= i < cur.len() ==> cur[i] == s@.subrange(
                from as int,
                to as int,
            )[i]);
            assert(all_digits(cur));
            assert(cur.drop_last() =~= pre);
            assert(all_digits(pre));
            lemma_dec_val_upper(pre);
            lemma_pow10_mono(pre.len(), 18);
            assert(dec_val(cur) == dec_val(pre) * 10 + digit_val(cur.last()));
        }
        let c = s[k];
        proof {
            assert(cur.last() == s@[k as int]);
            assert(is_digit(c));
        }
        let d: u32 = c as u32 - 48;
        acc = acc * 10 + (d as u64);
        k = k + 1;
    }
    proof {
        assert(s@.subrange(from as int, k as int) =~= s@.subrange(from as int, to as int));
    }
    acc
}

/// Reads the integer a number text denotes, when it fits a signed machine
/// word; a value outside that range, or a text that denotes no integer,
/// reads as nothing.
pub fn num_text_value(t: &str) -> (r: Option<i64>)
    ensures
        match r {
            Some(v) => int_of_num_text(t@) == Some(v as int),
            None => match int_of_num_text(t@) {
                Some(v) => v < i64::MIN || v > i64::MAX,
                None => true,
            },
        },
{
    let s = chars_of(t);
    let n: usize = s.len();
    if n == 0 {
        return None;
    }
    let neg = s[0] == '-';
    let from: usize = if neg {
        1
    } else {
        0
    };
    if n - from < 1 || n - from > 19 {
        return None;
    }
    let mut k: usize = from;
    while k < n
        invariant
            from <= k <= n == s@.len(),
            s@ == t@,
            neg == (s@.len() > 0 && s@[0] == '-'),
            from == if neg {
                1int
            } else {
                0int
            },
            1 <= n - from <= 19,
            forall|i: int| from <= i < k ==> is_digit(#[trigger] s@[i]),
        decreases n - k,
    {
        if !digit_char(s[k]) {
            proof {
                if neg {
                    assert(t@.skip(1)[k - 1] == s@[k as int]);
                    assert(!all_digits(t@.skip(1)));
                } else {
                    assert(!all_digits(t@));
                }
            }
            return None;
        }
        k = k + 1;
    }
    let ghost digits = s@.subrange(from as int, n as int);
    proof {
        assert(forall|i: int| 0 <= i < digits.len() ==> digits[i] == s@[from + i]);
        assert(all_digits(digits));
        if neg {
            assert(t@.skip(1) =~= digits);
        } else {
            assert(t@ =~= digits);
        }
        lemma_dec_val_upper(digits);
        lemma_pow10_mono(digits.len(), 19);
        lemma_pow10_19();
    }
    let acc = digits_value(&s, from, n);
    if neg {
        if acc > 9223372036854775808u64 {
            return None;
        }
        if acc == 9223372036854775808u64 {
            Some(i64::MIN)
        } else {
            Some(0i64 - (acc as i64))
        }
    } else {
        if acc > 9223372036854775807u64 {
            return None;
        }
        Some(acc as i64)
    }
}

/// Decides whether a number text denotes an integer between `lo` and `hi`.
pub fn num_text_in_range(t: &str, lo: i64, hi: i64) -> (r: bool)
    ensures
        r == match int_of_num_text(t@) {
            Some(v) => lo <= v <= hi,
            None => false,
        },
{
    match num_text_value(t) {
        Some(v) => lo <= v && v <= hi,
        None => false,
    }
}

/// Compares a character vector against a string slice.
pub fn vec_eq_str(v: &Vec<char>, s: &str) -> (r: bool)
    ensures
        r == (v@ == s@),
{
    let n: usize = v.len();
    if n != s.unicode_len() {
        return false;
    }
    let mut i: usize = 0;
    while i < n
        invariant
            n == v@.len() == s@.len(),
            i <= n,
            forall|k: int| 0 <= k < i ==> v@[k] == s@[k],
        decreases n - i,
    {
        if v[i] != s.get_char(i) {
            return false;
        }
        i = i + 1;
    }
    proof {
        assert(v@ =~= s@);
    }
    true
}

} // verus!

// ---------------------------------------------------------------------------
// Writing integers as decimal text.
// ---------------------------------------------------------------------------

verus! {

/// The decimal digit character for a value below ten.
pub open spec fn dec_digit_char(d: nat) -> char {
    if d == 0 {
        '0'
    } else if d == 1 {
        '1'
    } else if d == 2 {
        '2'
    } else if d == 3 {
        '3'
    } else if d == 4 {
        '4'
    } else if d == 5 {
        '5'
    } else if d == 6 {
        '6'
    } else if d == 7 {
        '7'
    } else if d == 8 {
        '8'
    } else {
        '9'
    }
}

/// The decimal text of a natural number, most significant digit first,
/// without leading zeroes.
pub open spec fn u64_text(v: nat) -> Seq<char>
    decreases v,
{
    if v < 10 {
        seq![dec_digit_char(v)]
    } else {
        u64_text(v / 10).push(dec_digit_char(v % 10))
    }
}

/// The decimal text of an integer: a minus sign for negatives, then the
/// magnitude's text.
pub open spec fn int_text(v: int) -> Seq<char> {
    if v < 0 {
        seq!['-'] + u64_text((-v) as nat)
    } else {
        u64_text(v as nat)
    }
}

/// Writes a natural number as decimal characters.
fn fmt_u64(v: u64) -> (r: Vec<char>)
    ensures
        r@ == u64_text(v as nat),
    decreases v,
{
    if v < 10 {
        let d: u8 = (v % 10) as u8;
        let c: char = dec_digit_char_of(d);
        let mut r: Vec<char> = Vec::new();
        r.push(c);
        proof {
            assert(r@ =~= seq![dec_digit_char(v as nat)]);
        }
        r
    } else {
        let mut r = fmt_u64(v / 10);
        let d: u8 = (v % 10) as u8;
        r.push(dec_digit_char_of(d));
        r
    }
}

/// The decimal digit character for a value below ten.
fn dec_digit_char_of(d: u8) -> (r: char)
    requires
        d < 10,
    ensures
        r == dec_digit_char(d as nat),
{
    if d == 0 {
        '0'
    } else if d == 1 {
        '1'
    } else if d == 2 {
        '2'
    } else if d == 3 {
        '3'
    } else if d == 4 {
        '4'
    } else if d == 5 {
        '5'
    } else if d == 6 {
        '6'
    } else if d == 7 {
        '7'
    } else if d == 8 {
        '8'
    } else {
        '9'
    }
}

/// Writes an integer as decimal text.
pub fn int_string(v: i64) -> (r: String)
    ensures
        r@ == int_text(v as int),
{
    if v < 0 {
        let m: u64 = if v == i64::MIN {
            9223372036854775808u64
        } else {
            (0i64 - v) as u64
        };
        proof {
            assert(m == -(v as int));
        }
        let mut out: Vec<char> = Vec::new();
        out.push('-');
        let mut digits = fmt_u64(m);
        out.append(&mut digits);
        proof {
            assert(out@ =~= seq!['-'] + u64_text(m as nat));
        }
        string_from_chars(&out)
    } else {
        let digits = fmt_u64(v as u64);
        string_from_chars(&digits)
    }
}

/// The boolean's name.
pub open spec fn bool_text(b: bool) -> Seq<char> {
    if b {
        "true"@
    } else {
        "false"@
    }
}

/// Writes a boolean as its name.
pub fn bool_string(b: bool) -> (r: &'static str)
    ensures
        r@ == bool_text(b),
{
    if b {
        "true"
    } else {
        "false"
    }
}

} // verus!
