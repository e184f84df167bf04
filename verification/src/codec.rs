//! Encodings the sync protocol puts on the wire: standard Base64, UUIDs,
//! JSON fragments, URLs, upper-casing and UTC timestamps.
use vstd::prelude::*;

use base64::engine::general_purpose::STANDARD as BASE64;
use base64::Engine;
use chrono::{DateTime, Utc};
use url::Url;
use uuid::Builder;

use vstd::utf8::{encode_utf8, is_ascii_chars};
use crate::crypto::random_bytes16;
use crate::text::{concat_str, hex_digit, hex_lower, hex_lower_text, lemma_trim_unchanged, trim};

verus! {

// ---------------------------------------------------------------------------
// Base64 (RFC 4648, standard alphabet, canonical padding)
// ---------------------------------------------------------------------------

/// The standard Base64 symbol for a 6-bit value.
pub open spec fn b64_symbol(v: int) -> char {
    if v < 26 {
        (v + 65) as char
    } else if v < 52 {
        (v + 71) as char
    } else if v < 62 {
        (v - 4) as char
    } else if v == 62 {
        '+'
    } else {
        '/'
    }
}

/// Standard Base64 with `=` padding: every three bytes become four symbols.
pub open spec fn b64_encode(b: Seq<u8>) -> Seq<char>
    decreases b.len(),
{
    if b.len() == 0 {
        Seq::empty()
    } else {
        let x = b[0] as int;
        let y = if b.len() > 1 { b[1] as int } else { 0 };
        let z = if b.len() > 2 { b[2] as int } else { 0 };
        let s0 = b64_symbol(x / 4);
        let s1 = b64_symbol((x % 4) * 16 + y / 16);
        let s2 = b64_symbol((y % 16) * 4 + z / 64);
        let s3 = b64_symbol(z % 64);
        if b.len() == 1 {
            seq![s0, s1, '=', '=']
        } else if b.len() == 2 {
            seq![s0, s1, s2, '=']
        } else {
            seq![s0, s1, s2, s3] + b64_encode(b.subrange(3, b.len() as int))
        }
    }
}

/// The bytes that `text` is the canonical encoding of, if any.
pub open spec fn b64_decode(text: Seq<char>) -> Option<Seq<u8>> {
    if exists|b: Seq<u8>| b64_encode(b) == text {
        Some(choose|b: Seq<u8>| b64_encode(b) == text)
    } else {
        None
    }
}

/// The characters that an encoding is made of.
pub open spec fn is_b64_char(c: char) -> bool {
    ||| 'A' <= c <= 'Z'
    ||| 'a' <= c <= 'z'
    ||| '0' <= c <= '9'
    ||| c == '+' || c == '/' || c == '='
}

proof fn lemma_b64_symbol(v: int)
    requires
        0 <= v < 64,
    ensures
        is_b64_char(b64_symbol(v)),
        b64_symbol(v) != '=',
        v < 26 ==> b64_symbol(v) as int == v + 65,
        26 <= v < 52 ==> b64_symbol(v) as int == v + 71,
        52 <= v < 62 ==> b64_symbol(v) as int == v - 4,
{
}

proof fn lemma_b64_symbol_injective(u: int, v: int)
    requires
        0 <= u < 64,
        0 <= v < 64,
        b64_symbol(u) == b64_symbol(v),
    ensures
        u == v,
{
    lemma_b64_symbol(u);
    lemma_b64_symbol(v);
}

/// An encoding is four symbols per started group of three bytes.
pub proof fn lemma_b64_len(b: Seq<u8>)
    ensures
        b64_encode(b).len() == ((b.len() + 2) / 3) * 4,
    decreases b.len(),
{
    if b.len() > 2 {
        lemma_b64_len(b.subrange(3, b.len() as int));
    }
}

/// Every character of an encoding is a Base64 symbol or padding.
pub proof fn lemma_b64_chars(b: Seq<u8>)
    ensures
        forall|i: int| 0 <= i < b64_encode(b).len() ==> is_b64_char(#[trigger] b64_encode(b)[i]),
    decreases b.len(),
{
    if b.len() > 0 {
        let x = b[0] as int;
        let y = if b.len() > 1 { b[1] as int } else { 0 };
        let z = if b.len() > 2 { b[2] as int } else { 0 };
        lemma_b64_symbol(x / 4);
        lemma_b64_symbol((x % 4) * 16 + y / 16);
        lemma_b64_symbol((y % 16) * 4 + z / 64);
        lemma_b64_symbol(z % 64);
        let e = b64_encode(b);
        if b.len() > 2 {
            let r = b.subrange(3, b.len() as int);
            lemma_b64_chars(r);
            assert forall|i: int| 0 <= i < e.len() implies is_b64_char(#[trigger] e[i]) by {
                if i >= 4 {
                    assert(e[i] == b64_encode(r)[i - 4]);
                }
            }
        }
    }
}

/// Different byte strings have different encodings.
pub proof fn lemma_b64_injective(a: Seq<u8>, b: Seq<u8>)
    requires
        b64_encode(a) == b64_encode(b),
    ensures
        a == b,
    decreases a.len(),
{
    lemma_b64_len(a);
    lemma_b64_len(b);
    if a.len() == 0 {
        assert(b.len() == 0);
    } else {
        assert(b.len() > 0);
        let e = b64_encode(a);
        let xa = a[0] as int;
        let ya = if a.len() > 1 { a[1] as int } else { 0 };
        let za = if a.len() > 2 { a[2] as int } else { 0 };
        let xb = b[0] as int;
        let yb = if b.len() > 1 { b[1] as int } else { 0 };
        let zb = if b.len() > 2 { b[2] as int } else { 0 };
        lemma_b64_symbol(xa / 4);
        lemma_b64_symbol((xa % 4) * 16 + ya / 16);
        lemma_b64_symbol((ya % 16) * 4 + za / 64);
        lemma_b64_symbol(za % 64);
        lemma_b64_symbol(xb / 4);
        lemma_b64_symbol((xb % 4) * 16 + yb / 16);
        lemma_b64_symbol((yb % 16) * 4 + zb / 64);
        lemma_b64_symbol(zb % 64);
        assert(e[0] == b64_symbol(xa / 4));
        assert(e[0] == b64_symbol(xb / 4));
        lemma_b64_symbol_injective(xa / 4, xb / 4);
        assert(e[1] == b64_symbol((xa % 4) * 16 + ya / 16));
        assert(e[1] == b64_symbol((xb % 4) * 16 + yb / 16));
        lemma_b64_symbol_injective((xa % 4) * 16 + ya / 16, (xb % 4) * 16 + yb / 16);
        assert(xa == xb);
        // the padding tells the length of the last group
        if a.len() == 1 {
            assert(e[2] == '=');
            assert(b.len() == 1);
            assert(a == b);
        } else {
            assert(e[2] == b64_symbol((ya % 16) * 4 + za / 64));
            assert(b.len() > 1);
            assert(e[2] == b64_symbol((yb % 16) * 4 + zb / 64));
            lemma_b64_symbol_injective((ya % 16) * 4 + za / 64, (yb % 16) * 4 + zb / 64);
            assert(ya == yb);
            if a.len() == 2 {
                assert(e[3] == '=');
                assert(b.len() == 2);
                assert(a == b);
            } else {
                assert(e[3] == b64_symbol(za % 64));
                assert(b.len() > 2);
                assert(e[3] == b64_symbol(zb % 64));
                lemma_b64_symbol_injective(za % 64, zb % 64);
                assert(za == zb);
                let ra = a.subrange(3, a.len() as int);
                let rb = b.subrange(3, b.len() as int);
                assert(b64_encode(ra) == e.subrange(4, e.len() as int));
                assert(b64_encode(rb) == e.subrange(4, e.len() as int));
                lemma_b64_injective(ra, rb);
                assert(a == seq![a[0], a[1], a[2]] + ra);
                assert(b == seq![b[0], b[1], b[2]] + rb);
            }
        }
    }
}

/// Decoding an encoding gives back the bytes.
pub proof fn lemma_b64_roundtrip(b: Seq<u8>)
    ensures
        b64_decode(b64_encode(b)) == Some(b),
{
    let t = b64_encode(b);
    assert(exists|c: Seq<u8>| b64_encode(c) == t);
    let c = choose|c: Seq<u8>| b64_encode(c) == t;
    lemma_b64_injective(c, b);
}

/// An encoding carries no surrounding whitespace.
pub proof fn lemma_b64_trimmed(b: Seq<u8>)
    ensures
        trim(b64_encode(b)) == b64_encode(b),
{
    let e = b64_encode(b);
    lemma_b64_chars(b);
    if e.len() > 0 {
        assert(is_b64_char(e[0]));
        assert(is_b64_char(e[e.len() - 1]));
    }
    lemma_trim_unchanged(e);
}

/// `STANDARD.encode(bytes)` (base64): padded standard Base64. (The encoder
/// panics when the output length overflows `usize`, which a slice of at most
/// `isize::MAX` bytes cannot reach.)
#[verifier::external_body]
pub(crate) fn base64_encode(bytes: &[u8]) -> (r: String)
    ensures
        r@ == b64_encode(bytes@),
{
    BASE64.encode(bytes)
}

/// `STANDARD.decode(text)` (base64). The engine requires canonical padding
/// and zero trailing bits, so it accepts exactly the encodings that
/// `encode` produces and gives back the bytes they encode.
#[verifier::external_body]
pub(crate) fn base64_decode(text: &str) -> (r: Option<Vec<u8>>)
    ensures
        r is Some ==> b64_encode(r->0@) == text@,
        forall|b: Seq<u8>| #[trigger] b64_encode(b) == text@ ==> (r is Some && r->0@ == b),
{
    match BASE64.decode(text) {
        Ok(v) => Some(v),
        Err(_) => None,
    }
}

/// Standard Base64 decoding, as an `Option`.
pub fn decode_base64(text: &str) -> (r: Option<Vec<u8>>)
    ensures
        match r {
            Some(v) => b64_decode(text@) == Some(v@),
            None => b64_decode(text@) is None,
        },
{
    let r = base64_decode(text);
    match r {
        Some(v) => {
            proof {
                let c = choose|c: Seq<u8>| b64_encode(c) == text@;
                assert(b64_encode(v@) == text@);
            }
            Some(v)
        },
        None => None,
    }
}

// ---------------------------------------------------------------------------
// UUIDs
// ---------------------------------------------------------------------------

/// Whether 16 bytes carry the version-4 and RFC 4122 variant bits.
pub open spec fn is_v4_uuid(b: Seq<u8>) -> bool {
    &&& b.len() == 16
    &&& b[6] / 16 == 4
    &&& b[8] / 64 == 2
}

/// The hyphenated lower-case form `xxxxxxxx-xxxx-xxxx-xxxx-xxxxxxxxxxxx`
/// (what `Uuid`'s `Display` writes).
pub open spec fn uuid_hyphenated(b: Seq<u8>) -> Seq<char> {
    hex_lower(b.subrange(0, 4)) + seq!['-'] + hex_lower(b.subrange(4, 6)) + seq!['-']
        + hex_lower(b.subrange(6, 8)) + seq!['-'] + hex_lower(b.subrange(8, 10)) + seq!['-']
        + hex_lower(b.subrange(10, 16))
}

/// The simple lower-case form, 32 hexadecimal digits (`Uuid::simple`).
pub open spec fn uuid_simple(b: Seq<u8>) -> Seq<char> {
    hex_lower(b)
}

/// `Builder::from_random_bytes(b).into_uuid()` (uuid), as its 16 bytes: the
/// given bytes with the version set to 4 (high nibble of byte 6) and the
/// RFC 4122 variant (two high bits of byte 8), as `Uuid::new_v4` does.
#[verifier::external_body]
fn uuid_from_random_bytes(b: [u8; 16]) -> (r: [u8; 16])
    ensures
        r@ == b@.update(6, (b[6] % 16 + 64) as u8).update(8, (b[8] % 64 + 128) as u8),
{
    Builder::from_random_bytes(b).into_uuid().into_bytes()
}

/// A fresh version-4 UUID, as its 16 bytes: random but for the version and
/// variant bits; `None` when the random source fails.
pub(crate) fn random_uuid() -> (r: Option<[u8; 16]>)
    ensures
        r matches Some(u) ==> is_v4_uuid(u@),
{
    match random_bytes16() {
        Some(b) => {
            let u = uuid_from_random_bytes(b);
            assert(u@[6] == (b[6] % 16 + 64) as u8);
            assert(u@[8] == (b[8] % 64 + 128) as u8);
            Some(u)
        },
        None => None,
    }
}

/// The hyphenated form of a UUID.
pub fn uuid_to_string(b: &[u8; 16]) -> (s: String)
    ensures
        s@ == uuid_hyphenated(b@),
{
    let s0 = hex_lower_text(&b[0..4]);
    let s1 = hex_lower_text(&b[4..6]);
    let s2 = hex_lower_text(&b[6..8]);
    let s3 = hex_lower_text(&b[8..10]);
    let s4 = hex_lower_text(&b[10..16]);
    let t = concat_str(s0.as_str(), "-");
    let t = concat_str(t.as_str(), s1.as_str());
    let t = concat_str(t.as_str(), "-");
    let t = concat_str(t.as_str(), s2.as_str());
    let t = concat_str(t.as_str(), "-");
    let t = concat_str(t.as_str(), s3.as_str());
    let t = concat_str(t.as_str(), "-");
    let t = concat_str(t.as_str(), s4.as_str());
    proof {
        reveal_strlit("-");
    }
    t
}

/// The simple form of a UUID.
pub fn uuid_to_simple(b: &[u8; 16]) -> (s: String)
    ensures
        s@ == uuid_simple(b@),
{
    hex_lower_text(b)
}

// ---------------------------------------------------------------------------
// JSON
// ---------------------------------------------------------------------------

/// Whether a byte string is one complete JSON document.
pub uninterp spec fn json_parses(bytes: Seq<u8>) -> bool;

/// How `serde_json` writes one character inside a string: `"` and `\\`
/// behind a backslash, the control characters with a short escape as that
/// escape, the other ones below U+0020 as `\u00` and two lower-case hex
/// digits, everything else as itself.
pub open spec fn json_escape(c: char) -> Seq<char> {
    if c == '"' {
        seq!['\\', '"']
    } else if c == '\\' {
        seq!['\\', '\\']
    } else if c == '\u{8}' {
        seq!['\\', 'b']
    } else if c == '\t' {
        seq!['\\', 't']
    } else if c == '\n' {
        seq!['\\', 'n']
    } else if c == '\u{c}' {
        seq!['\\', 'f']
    } else if c == '\r' {
        seq!['\\', 'r']
    } else if (c as u32) < 0x20 {
        seq!['\\', 'u', '0', '0', hex_digit((c as int) / 16), hex_digit((c as int) % 16)]
    } else {
        seq![c]
    }
}

/// The escaped characters of a string, in order.
pub open spec fn json_escaped(s: Seq<char>) -> Seq<char>
    decreases s.len(),
{
    if s.len() == 0 {
        Seq::empty()
    } else {
        json_escaped(s.drop_last()) + json_escape(s.last())
    }
}

/// The compact JSON text of a string value: quoted and escaped, in UTF-8.
pub open spec fn json_string_text(s: Seq<char>) -> Seq<u8> {
    encode_utf8(seq!['"'] + json_escaped(s) + seq!['"'])
}

/// `serde_json::from_slice::<serde_json::Value>(bytes).is_ok()` (serde_json).
#[verifier::external_body]
pub(crate) fn json_is_document(bytes: &[u8]) -> (r: bool)
    ensures
        r == json_parses(bytes@),
{
    match serde_json::from_slice::<serde_json::Value>(bytes) {
        Ok(_) => true,
        Err(_) => false,
    }
}

/// `serde_json::to_vec(s)` (serde_json) for a string: the serializer writes
/// the quoted, escaped text into a `Vec`, which cannot fail.
#[verifier::external_body]
pub(crate) fn json_string(s: &str) -> (r: Option<Vec<u8>>)
    ensures
        r is Some,
        r is Some ==> r->0@ == json_string_text(s@),
{
    match serde_json::to_vec(s) {
        Ok(v) => Some(v),
        Err(_) => None,
    }
}

// ---------------------------------------------------------------------------
// URLs
// ---------------------------------------------------------------------------

/// The parts of a parsed URL that the endpoint rules look at.
pub struct UrlParts {
    pub scheme: String,
    pub host: Option<String>,
    pub username: String,
    pub password: Option<String>,
    pub query: Option<String>,
    pub fragment: Option<String>,
}

/// The model of [`UrlParts`].
pub struct UrlPartsView {
    pub scheme: Seq<char>,
    pub host: Option<Seq<char>>,
    pub username: Seq<char>,
    pub password: Option<Seq<char>>,
    pub query: Option<Seq<char>>,
    pub fragment: Option<Seq<char>>,
}

pub open spec fn opt_text(o: Option<String>) -> Option<Seq<char>> {
    match o {
        Some(s) => Some(s@),
        None => None,
    }
}

impl View for UrlParts {
    type V = UrlPartsView;

    open spec fn view(&self) -> UrlPartsView {
        UrlPartsView {
            scheme: self.scheme@,
            host: opt_text(self.host),
            username: self.username@,
            password: opt_text(self.password),
            query: opt_text(self.query),
            fragment: opt_text(self.fragment),
        }
    }
}

/// What `Url::parse` makes of a text, seen through [`UrlPartsView`].
pub uninterp spec fn url_parse(text: Seq<char>) -> Option<UrlPartsView>;

/// `Url::parse(text)` (url), with `scheme()`, `host_str()`, `username()`,
/// `password()`, `query()` and `fragment()` of the result.
#[verifier::external_body]
pub(crate) fn parse_url(text: &str) -> (r: Option<UrlParts>)
    ensures
        r is Some ==> url_parse(text@) == Some(r->0@),
        r is None ==> url_parse(text@) is None,
{
    match Url::parse(text) {
        Ok(u) => Some(UrlParts {
            scheme: u.scheme().to_owned(),
            host: u.host_str().map(str::to_owned),
            username: u.username().to_owned(),
            password: u.password().map(str::to_owned),
            query: u.query().map(str::to_owned),
            fragment: u.fragment().map(str::to_owned),
        }),
        Err(_) => None,
    }
}

// ---------------------------------------------------------------------------
// Upper-casing
// ---------------------------------------------------------------------------

/// What `str::to_uppercase` returns (Unicode upper-case mapping).
pub uninterp spec fn unicode_uppercase(s: Seq<char>) -> Seq<char>;

/// The ASCII upper-case of a character.
pub open spec fn ascii_upper(c: char) -> char {
    if 'a' <= c <= 'z' {
        ((c as u32) - 32) as char
    } else {
        c
    }
}

/// What `str::to_uppercase` returns: on ASCII text `a`..`z` become
/// `A`..`Z` and every other character stays; other text goes by the Unicode
/// upper-case mapping.
pub open spec fn uppercase(s: Seq<char>) -> Seq<char> {
    if is_ascii_chars(s) {
        s.map_values(|c: char| ascii_upper(c))
    } else {
        unicode_uppercase(s)
    }
}

/// `str::to_uppercase` (std).
#[verifier::external_body]
pub(crate) fn to_uppercase(s: &str) -> (r: String)
    ensures
        r@ == if is_ascii_chars(s@) {
            s@.map_values(|c: char| ascii_upper(c))
        } else {
            unicode_uppercase(s@)
        },
{
    s.to_uppercase()
}

// ---------------------------------------------------------------------------
// UTC time
// ---------------------------------------------------------------------------

/// The earliest millisecond that `DateTime<Utc>` represents
/// (1 January of year -262143).
pub open spec fn min_utc_millis() -> int {
    -8334601228800000
}

/// The last millisecond that `DateTime<Utc>` represents
/// (31 December of year 262142, 23:59:59.999).
pub open spec fn max_utc_millis() -> int {
    8210266876799999
}

/// `DateTime::<Utc>::from_timestamp_millis(millis).is_some()` (chrono):
/// whether the instant lies in the representable calendar range.
#[verifier::external_body]
pub(crate) fn utc_millis_representable(millis: i64) -> (r: bool)
    ensures
        r == (min_utc_millis() <= millis <= max_utc_millis()),
{
    match DateTime::<Utc>::from_timestamp_millis(millis) {
        Some(_) => true,
        None => false,
    }
}

} // verus!
