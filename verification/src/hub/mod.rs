//! A hub: one community with its members, channels, messages and bots.
pub mod auth;
pub mod badges;
pub mod bots;
pub mod cert_worker;
pub mod certs;
pub mod channels;
pub mod chat_models;
pub mod config;
pub mod events;
pub mod federation;
pub mod games;
pub mod health;
pub mod messages;
pub mod migrations;
pub mod moderation;
pub mod payload;
pub mod permissions;
pub mod state;
pub mod tags;
pub mod token_expiry;
pub mod voice;
pub mod webhooks;
pub mod ws;

use vstd::prelude::*;
use vstd::slice::slice_to_vec;
use crate::codec::{hex_bytes, hex_decode};
use crate::text::concat2;

verus! {

/// Why a request to the hub is refused, and with which status.
pub struct HubError {
    pub status: u16,
    pub message: String,
}

/// What a refusal says.
pub ghost struct HubRefusal {
    pub status: int,
    pub message: Seq<char>,
}

impl View for HubError {
    type V = HubRefusal;

    open spec fn view(&self) -> HubRefusal {
        HubRefusal { status: self.status as int, message: self.message@ }
    }
}

/// A refusal with its status and its text.
pub open spec fn hub_refusal(status: int, message: Seq<char>) -> HubRefusal {
    HubRefusal { status, message }
}

/// A refusal with a fixed text.
pub fn refuse(status: u16, message: &str) -> (e: HubError)
    ensures
        e@ == hub_refusal(status as int, message@),
{
    HubError { status, message: message.to_owned() }
}

/// A refusal with a text made for it.
pub fn refuse_text(status: u16, message: String) -> (e: HubError)
    ensures
        e@ == hub_refusal(status as int, message@),
{
    HubError { status, message }
}

/// What the storage said when it failed, as the answer to the request.
pub fn db_error(text: &str) -> (e: HubError)
    ensures
        e@ == hub_refusal(500, "DB error: "@ + text@),
{
    HubError { status: 500, message: concat2("DB error: ", text) }
}

/// What is held against a public key: that the signature is its over the message.
pub struct SignatureClaim {
    pub key: String,
    pub message: Vec<u8>,
    pub signature: Vec<u8>,
}

/// Whether the claim is that of the key, the message and the signature. There is none where the
/// message or the signature cannot be read.
pub open spec fn is_claim(
    c: Option<SignatureClaim>,
    key: Seq<char>,
    message: Option<Seq<u8>>,
    signature: Option<Seq<u8>>,
) -> bool {
    if message is Some && signature is Some {
        c matches Some(x) && x.key@ == key && x.message@ == message->0 && x.signature@
            == signature->0
    } else {
        c is None
    }
}

/// The claim that the signature, in hexadecimal, is the key's over the message.
pub fn claim_over(key: &str, message: &[u8], signature_hex: &str) -> (c: Option<SignatureClaim>)
    ensures
        is_claim(c, key@, Some(message@), hex_bytes(signature_hex@)),
{
    match hex_decode(signature_hex) {
        Some(signature) => Some(
            SignatureClaim { key: key.to_owned(), message: slice_to_vec(message), signature },
        ),
        None => None,
    }
}

/// Whether the outcome is the refusal.
pub open spec fn refused<T>(r: Result<T, HubError>, d: HubRefusal) -> bool {
    r matches Err(e) && e@ == d
}

/// A refusal says what it was made with, and what the storage said is passed on as such.
pub proof fn a_refusal_says_its_status(
    status: u16,
    message: &str,
    text: String,
    e: HubError,
    f: HubError,
    db: HubError,
)
    requires
        call_ensures(refuse, (status, message), e),
        call_ensures(refuse_text, (status, text), f),
        call_ensures(db_error, (message,), db),
    ensures
        e.status == status && e.message@ == message@,
        f.status == status && f.message@ == text@,
        db.status == 500 && db.message@ == "DB error: "@ + message@,
{
    assert(e@.status == e.status && e@.message == e.message@);
    assert(f@.status == f.status && f@.message == f.message@);
    assert(db@.status == db.status && db@.message == db.message@);
}

/// What is held against a key is the message and the signature as they came; a signature that
/// cannot be read is held against no one.
pub proof fn a_claim_is_what_came(
    key: &str,
    message: &[u8],
    signature: &str,
    c: Option<SignatureClaim>,
)
    requires
        call_ensures(claim_over, (key, message, signature), c),
    ensures
        c is Some <==> hex_bytes(signature@) is Some,
        c matches Some(x) ==> x.key@ == key@ && x.message@ == message@ && Some(x.signature@)
            == hex_bytes(signature@),
{
}

} // verus!
