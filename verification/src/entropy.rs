//! Random bytes and random identifiers.
use vstd::prelude::*;
use rand::RngCore;
use crate::codec::{hex_encode, hex_text};
use crate::text::concat2;

verus! {

/// `rand::RngCore::fill_bytes` of the thread's generator: so many bytes, of which nothing
/// else is known.
#[verifier::external_body]
pub(crate) fn random_bytes(n: usize) -> (r: Vec<u8>)
    ensures
        r@.len() == n,
{
    let mut bytes = vec![0u8; n];
    rand::thread_rng().fill_bytes(&mut bytes);
    bytes
}

/// Whether the character is a lower-case hexadecimal digit.
pub open spec fn is_lower_hex(c: char) -> bool {
    ('0' <= c && c <= '9') || ('a' <= c && c <= 'f')
}

/// Whether these are the digits of a random UUID: 32 lower-case hexadecimal ones, with the
/// version in the thirteenth and the variant in the seventeenth.
pub open spec fn random_uuid(d: Seq<char>) -> bool {
    &&& d.len() == 32
    &&& forall|i: int| 0 <= i < 32 ==> #[trigger] is_lower_hex(d[i])
    &&& d[12] == '4'
    &&& d[16] == '8' || d[16] == '9' || d[16] == 'a' || d[16] == 'b'
}

/// The digits of a UUID in groups of 8, 4, 4, 4 and 12.
pub open spec fn hyphenated(d: Seq<char>) -> Seq<char> {
    d.subrange(0, 8).push('-') + d.subrange(8, 12).push('-') + d.subrange(12, 16).push('-')
        + d.subrange(16, 20).push('-') + d.subrange(20, 32)
}

/// Whether the text is a random UUID in five groups.
pub open spec fn is_random_uuid(s: Seq<char>) -> bool {
    exists|d: Seq<char>| random_uuid(d) && s == #[trigger] hyphenated(d)
}

/// `uuid::Uuid::new_v4` in its hyphenated form: the digits of a random UUID in five groups.
#[verifier::external_body]
fn uuid_hyphenated() -> (r: String)
    ensures
        is_random_uuid(r@),
{
    uuid::Uuid::new_v4().to_string()
}

/// `uuid::Uuid::new_v4` in its simple form: the digits of a random UUID.
#[verifier::external_body]
fn uuid_simple() -> (r: String)
    ensures
        random_uuid(r@),
{
    uuid::Uuid::new_v4().simple().to_string()
}

/// A fresh identifier for a row: a random UUID.
pub fn new_id() -> (r: String)
    ensures
        r@.len() == 36,
        is_random_uuid(r@),
{
    uuid_hyphenated()
}

/// A fresh identifier for a bot: `bot_` and the digits of a random UUID.
pub fn new_bot_id() -> (r: String)
    ensures
        exists|u: Seq<char>| random_uuid(u) && r@ == #[trigger] ("bot_"@ + u),
{
    let u = uuid_simple();
    concat2("bot_", u.as_str())
}

/// A fresh secret of 64 hexadecimal digits: those of two random UUIDs.
pub fn generate_token() -> (r: String)
    ensures
        r@.len() == 64,
        forall|i: int| 0 <= i < 64 ==> #[trigger] is_lower_hex(r@[i]),
        exists|a: Seq<char>, b: Seq<char>|
            random_uuid(a) && random_uuid(b) && r@ == #[trigger] (a + b),
{
    let a = uuid_simple();
    let b = uuid_simple();
    let r = concat2(a.as_str(), b.as_str());
    assert forall|i: int| 0 <= i < 64 implies #[trigger] is_lower_hex(r@[i]) by {
        if i < 32 {
            assert(is_lower_hex(a@[i]));
        } else {
            assert(is_lower_hex(b@[i - 32]));
        }
    }
    r
}

/// So many random bytes in hexadecimal.
pub fn random_hex(n: usize) -> (r: String)
    ensures
        r@.len() == 2 * n,
        exists|b: Seq<u8>| b.len() == n && r@ == #[trigger] hex_text(b),
{
    let b = random_bytes(n);
    hex_encode(&b)
}

} // verus!
