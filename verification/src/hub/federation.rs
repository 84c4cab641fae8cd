//! Talking to another hub: where to ask, and what to make of the answer.
use vstd::prelude::*;
use crate::codec::{hex_bytes, hex_decode, hex_round_trip, hex_text};
use crate::text::{concat2, concat3};

verus! {

/// Something that another hub can be asked for.
pub enum Endpoint {
    Info,
    Challenge,
    Verify,
    Channels,
    Messages { channel_id: String },
    AllianceJoin { alliance_id: String },
    Alliance { alliance_id: String },
    AllianceChannels { alliance_id: String },
    Dm,
    BadgeOffer,
}

/// The path of an endpoint.
pub open spec fn path_of(e: Endpoint) -> Seq<char> {
    match e {
        Endpoint::Info => "/info"@,
        Endpoint::Challenge => "/auth/challenge"@,
        Endpoint::Verify => "/auth/verify"@,
        Endpoint::Channels => "/channels"@,
        Endpoint::Messages { channel_id } => "/channels/"@ + channel_id@ + "/messages"@,
        Endpoint::AllianceJoin { alliance_id } => "/alliances/"@ + alliance_id@ + "/join"@,
        Endpoint::Alliance { alliance_id } => "/alliances/"@ + alliance_id@,
        Endpoint::AllianceChannels { alliance_id } => "/alliances/"@ + alliance_id@ + "/channels"@,
        Endpoint::Dm => "/federation/dm"@,
        Endpoint::BadgeOffer => "/federation/badge-offer"@,
    }
}

/// The address of an endpoint of the hub at the base.
pub fn endpoint_url(base_url: &str, endpoint: &Endpoint) -> (r: String)
    ensures
        r@ == base_url@ + path_of(*endpoint),
{
    let path: String = match endpoint {
        Endpoint::Info => "/info".to_owned(),
        Endpoint::Challenge => "/auth/challenge".to_owned(),
        Endpoint::Verify => "/auth/verify".to_owned(),
        Endpoint::Channels => "/channels".to_owned(),
        Endpoint::Messages { channel_id } => concat3("/channels/", channel_id.as_str(), "/messages"),
        Endpoint::AllianceJoin { alliance_id } => concat3(
            "/alliances/",
            alliance_id.as_str(),
            "/join",
        ),
        Endpoint::Alliance { alliance_id } => concat2("/alliances/", alliance_id.as_str()),
        Endpoint::AllianceChannels { alliance_id } => concat3(
            "/alliances/",
            alliance_id.as_str(),
            "/channels",
        ),
        Endpoint::Dm => "/federation/dm".to_owned(),
        Endpoint::BadgeOffer => "/federation/badge-offer".to_owned(),
    };
    concat2(base_url, path.as_str())
}

/// The bytes to sign for another hub's challenge, or what is wrong with the challenge.
pub fn challenge_to_sign(challenge: &str) -> (r: Result<Vec<u8>, String>)
    ensures
        match hex_bytes(challenge@) {
            Some(b) => r matches Ok(v) && v@ == b,
            None => r matches Err(m) && m@ == "Invalid challenge hex from peer"@,
        },
{
    match hex_decode(challenge) {
        Some(b) => Ok(b),
        None => Err("Invalid challenge hex from peer".to_owned()),
    }
}

/// Whether another hub took the offer of a badge, or what it said instead: any status of
/// success will do.
pub fn post_badge_offer(status: u16, status_text: &str, body: &str) -> (r: Result<(), String>)
    ensures
        if 200 <= status < 300 {
            r is Ok
        } else {
            r matches Err(m) && m@ == "Recipient returned HTTP "@ + status_text@ + ": "@ + body@
        },
{
    if status >= 200 && status < 300 {
        Ok(())
    } else {
        let head = concat3("Recipient returned HTTP ", status_text, ": ");
        Err(concat2(head.as_str(), body))
    }
}

/// Every endpoint of a hub stands under its base, at the place that hubs agree on.
pub proof fn endpoints_stand_at_their_place(base: &str, e: &Endpoint, r: String)
    requires
        call_ensures(endpoint_url, (base, e), r),
    ensures
        base@.is_prefix_of(r@),
        *e is Info ==> r@ == base@ + "/info"@,
        *e is Challenge ==> r@ == base@ + "/auth/challenge"@,
        *e is Verify ==> r@ == base@ + "/auth/verify"@,
        *e is Channels ==> r@ == base@ + "/channels"@,
        *e matches Endpoint::Messages { channel_id } ==> r@ == base@ + ("/channels/"@ + channel_id@
            + "/messages"@),
        *e matches Endpoint::AllianceJoin { alliance_id } ==> r@ == base@ + ("/alliances/"@
            + alliance_id@ + "/join"@),
        *e matches Endpoint::Alliance { alliance_id } ==> r@ == base@ + ("/alliances/"@
            + alliance_id@),
        *e matches Endpoint::AllianceChannels { alliance_id } ==> r@ == base@ + ("/alliances/"@
            + alliance_id@ + "/channels"@),
        *e is Dm ==> r@ == base@ + "/federation/dm"@,
        *e is BadgeOffer ==> r@ == base@ + "/federation/badge-offer"@,
{
    assert(r@.subrange(0, base@.len() as int) =~= base@);
}

/// What another hub hands out as its challenge is what is signed for it.
pub proof fn a_peers_challenge_is_signed_as_it_came(
    bytes: Seq<u8>,
    challenge: &str,
    r: Result<Vec<u8>, String>,
)
    requires
        call_ensures(challenge_to_sign, (challenge,), r),
    ensures
        challenge@ == hex_text(bytes) ==> r is Ok && r->Ok_0@ == bytes,
        r is Ok <==> hex_bytes(challenge@) is Some,
{
    hex_round_trip(bytes);
}

/// An offer was taken exactly where the other hub answers with success.
pub proof fn an_offer_is_taken_on_success(
    status: u16,
    status_text: &str,
    body: &str,
    r: Result<(), String>,
)
    requires
        call_ensures(post_badge_offer, (status, status_text, body), r),
    ensures
        r is Ok <==> status / 100 == 2,
        r matches Err(m) ==> m@ == "Recipient returned HTTP "@ + status_text@ + ": "@ + body@,
{
}

} // verus!
