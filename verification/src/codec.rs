//! Hexadecimal text, SHA-256 and JSON lists of texts.
use vstd::prelude::*;
use crate::text::texts;
use sha2::Digest;

verus! {

/// The lower-case hexadecimal digit of a number below sixteen.
pub open spec fn hex_digit(n: int) -> char {
    if n < 10 {
        (48 + n) as char
    } else {
        (87 + n) as char
    }
}

/// The bytes in lower-case hexadecimal, two digits each.
pub open spec fn hex_text(b: Seq<u8>) -> Seq<char> {
    Seq::new(
        2 * b.len(),
        |i: int|
            hex_digit(
                if i % 2 == 0 {
                    b[i / 2] as int / 16
                } else {
                    b[i / 2] as int % 16
                },
            ),
    )
}

/// Whether the character is a hexadecimal digit, in either case.
pub open spec fn is_hex(c: char) -> bool {
    ('0' <= c && c <= '9') || ('a' <= c && c <= 'f') || ('A' <= c && c <= 'F')
}

/// The value of a hexadecimal digit.
pub open spec fn hex_value(c: char) -> int {
    if '0' <= c && c <= '9' {
        c as int - 48
    } else if 'a' <= c && c <= 'f' {
        c as int - 87
    } else {
        c as int - 55
    }
}

/// Whether every character is a hexadecimal digit.
pub open spec fn all_hex(s: Seq<char>) -> bool {
    forall|i: int| 0 <= i < s.len() ==> is_hex(#[trigger] s[i])
}

/// The bytes that a hexadecimal text of even length stands for.
pub open spec fn hex_bytes(s: Seq<char>) -> Option<Seq<u8>> {
    if s.len() % 2 == 0 && all_hex(s) {
        Some(
            Seq::new(
                s.len() / 2,
                |i: int| (16 * hex_value(s[2 * i]) + hex_value(s[2 * i + 1])) as u8,
            ),
        )
    } else {
        None
    }
}

/// `hex::encode`: the bytes in lower-case hexadecimal, the high digit of each byte first.
#[verifier::external_body]
pub(crate) fn hex_encode(data: &Vec<u8>) -> (r: String)
    ensures
        r@ == hex_text(data@),
{
    hex::encode(data)
}

/// `hex::decode`: the bytes of a hexadecimal text, digits in either case. There are none
/// exactly where the length is odd or a character is no hexadecimal digit. Which of the two
/// it was is not told.
#[verifier::external_body]
pub(crate) fn hex_decode(s: &str) -> (r: Option<Vec<u8>>)
    ensures
        match hex_bytes(s@) {
            Some(b) => r matches Some(v) && v@ == b,
            None => r is None,
        },
{
    hex::decode(s).ok()
}

/// Reading what was written in hexadecimal gives the bytes back.
pub proof fn hex_round_trip(b: Seq<u8>)
    ensures
        hex_bytes(hex_text(b)) == Some(b),
{
    let s = hex_text(b);
    assert forall|i: int| 0 <= i < s.len() implies is_hex(#[trigger] s[i]) by {}
    let r = Seq::new(
        s.len() / 2,
        |i: int| (16 * hex_value(s[2 * i]) + hex_value(s[2 * i + 1])) as u8,
    );
    assert forall|i: int| 0 <= i < b.len() implies r[i] == b[i] by {
        assert((2 * i) / 2 == i && (2 * i + 1) / 2 == i);
        assert((2 * i) % 2 == 0 && (2 * i + 1) % 2 == 1);
        assert(b[i] as int == 16 * (b[i] as int / 16) + b[i] as int % 16);
    }
    assert(r =~= b);
}

/// Two byte strings with the same hexadecimal text are the same.
pub proof fn hex_text_injective(a: Seq<u8>, b: Seq<u8>)
    requires
        hex_text(a) == hex_text(b),
    ensures
        a == b,
{
    hex_round_trip(a);
    hex_round_trip(b);
}

/// The SHA-256 digest of the bytes.
pub uninterp spec fn sha256_digest(data: Seq<u8>) -> Seq<u8>;

/// `sha2::Sha256::digest`: the SHA-256 digest of the bytes, which has 32 bytes.
#[verifier::external_body]
pub(crate) fn sha256(data: &[u8]) -> (r: Vec<u8>)
    ensures
        r@ == sha256_digest(data@),
        r@.len() == 32,
{
    sha2::Sha256::digest(data).to_vec()
}

/// What `serde_json::to_string` writes for a list of texts.
pub uninterp spec fn json_of_strings(v: Seq<Seq<char>>) -> Seq<char>;

/// What `serde_json::from_str` reads as a list of texts.
pub uninterp spec fn strings_of_json(s: Seq<char>) -> Option<Seq<Seq<char>>>;

/// Whether `serde_json::from_str` reads the text as a JSON value.
pub uninterp spec fn is_json(s: Seq<char>) -> bool;

/// `serde_json::to_string` on a list of texts, which never fails: neither a list nor a text
/// refuses to be written. What it writes is JSON, and reads back as the same list.
#[verifier::external_body]
pub(crate) fn strings_to_json(v: &Vec<String>) -> (r: String)
    ensures
        r@ == json_of_strings(texts(v@)),
        is_json(r@),
        strings_of_json(r@) == Some(texts(v@)),
{
    serde_json::to_string(v).unwrap()
}

/// `serde_json::from_str` to a list of texts; nothing where the text is no such list.
#[verifier::external_body]
pub(crate) fn strings_from_json(s: &str) -> (r: Option<Vec<String>>)
    ensures
        match strings_of_json(s@) {
            Some(t) => r matches Some(v) && texts(v@) == t,
            None => r is None,
        },
{
    serde_json::from_str::<Vec<String>>(s).ok()
}

/// `serde_json::from_str` to any JSON value: whether the text is one.
#[verifier::external_body]
pub(crate) fn json_valid(s: &str) -> (r: bool)
    ensures
        r == is_json(s@),
{
    serde_json::from_str::<serde_json::Value>(s).is_ok()
}

/// The text itself where it is JSON, the other one where it is not.
pub open spec fn json_or(s: Seq<char>, other: Seq<char>) -> Seq<char> {
    if is_json(s) {
        s
    } else {
        other
    }
}

} // verus!
