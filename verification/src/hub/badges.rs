//! Badges: what one hub says in praise of another, and signs.
use vstd::prelude::*;
use crate::calendar::{civil_date, iso_from_unix, iso_text, iso_texts_order_as_time};
use crate::codec::{hex_bytes, hex_decode};
use crate::hub::permissions::{allows, lemma_may_is_allowed, UserPermissions, ADMIN};
use crate::hub::{
    claim_over, hub_refusal, is_claim, refuse, refuse_text, refused, HubError, HubRefusal,
    SignatureClaim,
};
use crate::rows::{
    find_id, first_match, has_id, is_not, is_row, lemma_filter_step, lemma_first_match,
    lemma_kept, lemma_match_holds, lemma_no_match, remove_id, Identified,
};
use crate::text::{
    concat2, lemma_text_lt_irreflexive, lemma_text_lt_transitive, less, opt_text, same, text_lt,
    trim_end_slashes, without_trailing_slashes,
};
use vstd::utf8::encode_utf8;

verus! {

/// What a hub says of another, and signs. Times are texts.
#[derive(Clone)]
pub struct BadgePayload {
    pub issuer_pubkey: String,
    pub issuer_url: String,
    pub subject_pubkey: String,
    pub label: String,
    pub issued_at: String,
    pub expires_at: Option<String>,
}

/// A badge as it is shown to everyone: what is said, and the signature.
#[derive(Clone)]
pub struct BadgeEnvelope {
    pub payload: BadgePayload,
    pub signature: String,
}

pub struct PendingBadgeResponse {
    pub id: String,
    pub from_hub_pubkey: String,
    pub from_hub_url: String,
    pub label: String,
    pub note: Option<String>,
    pub payload: BadgePayload,
    pub created_at: String,
}

pub struct HeldBadgeResponse {
    pub id: String,
    pub issuer_pubkey: String,
    pub issuer_url: String,
    pub label: String,
    pub payload: BadgePayload,
    pub accepted_at: String,
}

pub struct IssueBadgeRequest {
    pub recipient_hub_url: String,
    pub label: String,
    pub note: Option<String>,
    pub expires_days: Option<u32>,
}

pub struct IssuedBadgeResponse {
    pub id: String,
    pub recipient_hub_url: String,
    pub recipient_hub_pubkey: String,
    pub label: String,
    pub payload: BadgePayload,
    pub issued_at: String,
    pub expires_at: Option<String>,
}

/// A badge that another hub offers. The payload is JSON text.
pub struct BadgeOfferRow {
    pub id: String,
    pub from_hub_pubkey: String,
    pub from_hub_url: String,
    pub label: String,
    pub note: Option<String>,
    pub payload: String,
    pub signature: String,
    pub created_at: String,
}

/// A badge that this hub holds. The payload is JSON text.
pub struct HubBadgeRow {
    pub id: String,
    pub issuer_pubkey: String,
    pub issuer_url: String,
    pub label: String,
    pub payload: String,
    pub signature: String,
    pub accepted_at: String,
}

/// A badge that this hub gave. The payload is JSON text.
pub struct IssuedBadgeRow {
    pub id: String,
    pub recipient_hub_url: String,
    pub recipient_hub_pubkey: String,
    pub label: String,
    pub payload: String,
    pub signature: String,
    pub issued_at: String,
    pub expires_at: Option<String>,
}

impl Identified for BadgeOfferRow {
    open spec fn row_id(&self) -> Seq<char> {
        self.id@
    }

    fn id_text(&self) -> (r: &str) {
        self.id.as_str()
    }
}

impl Identified for HubBadgeRow {
    open spec fn row_id(&self) -> Seq<char> {
        self.id@
    }

    fn id_text(&self) -> (r: &str) {
        self.id.as_str()
    }
}

/// A row with its payload read from the JSON text, or what was wrong with the text.
pub struct WithPayload<R> {
    pub row: R,
    pub payload: Result<BadgePayload, String>,
}

impl<R: Identified> Identified for WithPayload<R> {
    open spec fn row_id(&self) -> Seq<char> {
        self.row.row_id()
    }

    fn id_text(&self) -> (r: &str) {
        self.row.id_text()
    }
}

/// The rows whose payload cannot be read, as a condition.
pub open spec fn is_unreadable<R>() -> spec_fn(WithPayload<R>) -> bool {
    |x: WithPayload<R>| x.payload is Err
}

/// Why the list cannot be shown, where it cannot: only an admin sees it, and every payload must
/// be readable.
pub open spec fn list_refusal<R>(perms: UserPermissions, rows: Seq<WithPayload<R>>) -> Option<
    HubRefusal,
> {
    if perms.refusal(ADMIN@) is Some {
        perms.refusal(ADMIN@)
    } else {
        match first_match(rows, is_unreadable()) {
            Some(x) => Some(hub_refusal(500, "Payload parse error: "@ + x.payload->Err_0@)),
            None => None,
        }
    }
}

fn may_list<R>(perms: &UserPermissions, rows: &Vec<WithPayload<R>>) -> (r: Result<(), HubError>)
    ensures
        match list_refusal(*perms, rows@) {
            Some(d) => refused(r, d),
            None => r is Ok && forall|i: int|
                0 <= i < rows@.len() ==> (#[trigger] rows@[i]).payload is Ok,
        },
{
    match perms.require(ADMIN) {
        Ok(_) => {},
        Err(e) => return Err(e),
    }
    let mut i: usize = 0;
    while i < rows.len()
        invariant
            i <= rows@.len(),
            perms.refusal(ADMIN@) is None,
            forall|k: int| 0 <= k < i ==> !is_unreadable::<R>()(#[trigger] rows@[k]),
        decreases rows@.len() - i,
    {
        match &rows[i].payload {
            Ok(_) => {},
            Err(f) => {
                proof {
                    lemma_first_match(rows@, is_unreadable::<R>(), i as int);
                }
                return Err(refuse_text(500, concat2("Payload parse error: ", f.as_str())));
            },
        }
        i = i + 1;
    }
    proof {
        lemma_no_match(rows@, is_unreadable::<R>());
        assert forall|k: int| 0 <= k < rows@.len() implies (#[trigger] rows@[k]).payload is Ok by {
            assert(!is_unreadable::<R>()(rows@[k]));
        }
    }
    Ok(())
}

/// Whether the two payloads say the same.
pub open spec fn same_badge(a: BadgePayload, b: BadgePayload) -> bool {
    &&& a.issuer_pubkey == b.issuer_pubkey
    &&& a.issuer_url == b.issuer_url
    &&& a.subject_pubkey == b.subject_pubkey
    &&& a.label == b.label
    &&& a.issued_at == b.issued_at
    &&& opt_text(a.expires_at) == opt_text(b.expires_at)
}

fn copy_badge(p: &BadgePayload) -> (r: BadgePayload)
    ensures
        same_badge(r, *p),
{
    BadgePayload {
        issuer_pubkey: p.issuer_pubkey.clone(),
        issuer_url: p.issuer_url.clone(),
        subject_pubkey: p.subject_pubkey.clone(),
        label: p.label.clone(),
        issued_at: p.issued_at.clone(),
        expires_at: p.expires_at.clone(),
    }
}

/// Whether the answer shows the offer.
pub open spec fn offer_shown(s: PendingBadgeResponse, x: WithPayload<BadgeOfferRow>) -> bool {
    &&& s.id == x.row.id
    &&& s.from_hub_pubkey == x.row.from_hub_pubkey
    &&& s.from_hub_url == x.row.from_hub_url
    &&& s.label == x.row.label
    &&& opt_text(s.note) == opt_text(x.row.note)
    &&& x.payload matches Ok(p) && same_badge(s.payload, p)
    &&& s.created_at == x.row.created_at
}

/// The badges that other hubs offer, as they stand in the list.
pub fn list_pending(perms: &UserPermissions, offers: &Vec<WithPayload<BadgeOfferRow>>) -> (r:
    Result<Vec<PendingBadgeResponse>, HubError>)
    ensures
        match list_refusal(*perms, offers@) {
            Some(d) => refused(r, d),
            None => r matches Ok(v) && v@.len() == offers@.len() && (forall|i: int|
                0 <= i < offers@.len() ==> offer_shown(#[trigger] v@[i], offers@[i])),
        },
{
    match may_list(perms, offers) {
        Ok(_) => {},
        Err(e) => return Err(e),
    }
    let mut out: Vec<PendingBadgeResponse> = Vec::new();
    let mut i: usize = 0;
    while i < offers.len()
        invariant
            i <= offers@.len(),
            out@.len() == i,
            forall|k: int| 0 <= k < offers@.len() ==> (#[trigger] offers@[k]).payload is Ok,
            forall|k: int| 0 <= k < i ==> offer_shown(#[trigger] out@[k], offers@[k]),
        decreases offers@.len() - i,
    {
        let x = &offers[i];
        match &x.payload {
            Ok(p) => {
                out.push(
                    PendingBadgeResponse {
                        id: x.row.id.clone(),
                        from_hub_pubkey: x.row.from_hub_pubkey.clone(),
                        from_hub_url: x.row.from_hub_url.clone(),
                        label: x.row.label.clone(),
                        note: x.row.note.clone(),
                        payload: copy_badge(p),
                        created_at: x.row.created_at.clone(),
                    },
                );
            },
            Err(_) => {
                assert(offers@[i as int].payload is Ok);
            },
        }
        i = i + 1;
    }
    Ok(out)
}

/// Why the offer is not accepted, where it is not: it must be there, be signed by the hub that
/// made it, be readable, and be about this hub.
pub open spec fn accept_refusal(
    perms: UserPermissions,
    offer: Option<WithPayload<BadgeOfferRow>>,
    signed: bool,
    our_pubkey: Seq<char>,
) -> Option<HubRefusal> {
    if perms.refusal(ADMIN@) is Some {
        perms.refusal(ADMIN@)
    } else {
        match offer {
            None => Some(hub_refusal(404, "Pending badge offer not found"@)),
            Some(x) => if hex_bytes(x.row.signature@) is None {
                Some(hub_refusal(400, "Invalid signature hex in stored offer"@))
            } else if !signed {
                Some(hub_refusal(400, "Badge signature verification failed"@))
            } else {
                match x.payload {
                    Err(f) => Some(hub_refusal(500, "Payload parse error: "@ + f@)),
                    Ok(p) => if p.subject_pubkey@ != our_pubkey {
                        Some(hub_refusal(400, "Badge subject does not match this hub"@))
                    } else {
                        None
                    },
                }
            },
        }
    }
}

/// What the signature of an offer is held against: the key of the hub that made it, and the
/// payload as it is stored.
pub fn offer_claim(offer: &BadgeOfferRow) -> (c: Option<SignatureClaim>)
    ensures
        is_claim(
            c,
            offer.from_hub_pubkey@,
            Some(encode_utf8(offer.payload@)),
            hex_bytes(offer.signature@),
        ),
{
    claim_over(
        offer.from_hub_pubkey.as_str(),
        offer.payload.as_str().as_bytes(),
        offer.signature.as_str(),
    )
}

/// Whether the badge is the one that was offered.
pub open spec fn badge_of(
    b: HubBadgeRow,
    o: BadgeOfferRow,
    id: Seq<char>,
    accepted_at: Seq<char>,
) -> bool {
    &&& b.id@ == id
    &&& b.issuer_pubkey@ == o.from_hub_pubkey@
    &&& b.issuer_url@ == o.from_hub_url@
    &&& b.label@ == o.label@
    &&& b.payload@ == o.payload@
    &&& b.signature@ == o.signature@
    &&& b.accepted_at@ == accepted_at
}

fn accepted(
    perms: &UserPermissions,
    offers: &Vec<WithPayload<BadgeOfferRow>>,
    id: &str,
    signed: bool,
    our_pubkey: &str,
    badge_id: &str,
    accepted_at: &str,
) -> (r: Result<HubBadgeRow, HubError>)
    ensures
        match accept_refusal(*perms, first_match(offers@, is_row(id@)), signed, our_pubkey@) {
            Some(d) => refused(r, d),
            None => r matches Ok(b) && badge_of(
                b,
                first_match(offers@, is_row(id@))->0.row,
                badge_id@,
                accepted_at@,
            ),
        },
{
    match perms.require(ADMIN) {
        Ok(_) => {},
        Err(e) => return Err(e),
    }
    match find_id(offers, id) {
        None => Err(refuse(404, "Pending badge offer not found")),
        Some(i) => {
            let x = &offers[i];
            if hex_decode(x.row.signature.as_str()).is_none() {
                return Err(refuse(400, "Invalid signature hex in stored offer"));
            }
            if !signed {
                return Err(refuse(400, "Badge signature verification failed"));
            }
            match &x.payload {
                Err(f) => return Err(
                    refuse_text(500, concat2("Payload parse error: ", f.as_str())),
                ),
                Ok(p) => {
                    if !same(p.subject_pubkey.as_str(), our_pubkey) {
                        return Err(refuse(400, "Badge subject does not match this hub"));
                    }
                },
            }
            Ok(
                HubBadgeRow {
                    id: badge_id.to_owned(),
                    issuer_pubkey: x.row.from_hub_pubkey.clone(),
                    issuer_url: x.row.from_hub_url.clone(),
                    label: x.row.label.clone(),
                    payload: x.row.payload.clone(),
                    signature: x.row.signature.clone(),
                    accepted_at: accepted_at.to_owned(),
                },
            )
        },
    }
}

/// Accepts the offer with the identifier, given whether the hub that made it signed it: the
/// badge to hold, under an identifier of its own. The offer is then gone; where it is refused
/// it stays.
pub fn accept_pending(
    perms: &UserPermissions,
    offers: &mut Vec<WithPayload<BadgeOfferRow>>,
    id: &str,
    signed: bool,
    our_pubkey: &str,
    badge_id: &str,
    accepted_at: &str,
) -> (r: Result<HubBadgeRow, HubError>)
    ensures
        match accept_refusal(*perms, first_match(old(offers)@, is_row(id@)), signed, our_pubkey@) {
            Some(d) => refused(r, d) && final(offers)@ == old(offers)@,
            None => (r matches Ok(b) && badge_of(
                b,
                first_match(old(offers)@, is_row(id@))->0.row,
                badge_id@,
                accepted_at@,
            )) && final(offers)@ == old(offers)@.filter(is_not(id@)),
        },
{
    let badge = match accepted(perms, offers, id, signed, our_pubkey, badge_id, accepted_at) {
        Ok(b) => b,
        Err(e) => return Err(e),
    };
    remove_id(offers, id);
    Ok(badge)
}

/// Declines an offer, which is then gone. The answer has no content.
pub fn decline_pending(perms: &UserPermissions, offers: &mut Vec<BadgeOfferRow>, id: &str) -> (r:
    Result<u16, HubError>)
    ensures
        match perms.refusal(ADMIN@) {
            Some(d) => refused(r, d) && final(offers)@ == old(offers)@,
            None => {
                &&& final(offers)@ == old(offers)@.filter(is_not(id@))
                &&& if has_id(old(offers)@, id@) {
                    r == Ok::<u16, HubError>(204)
                } else {
                    refused(r, hub_refusal(404, "Pending badge offer not found"@))
                }
            },
        },
{
    match perms.require(ADMIN) {
        Ok(_) => {},
        Err(e) => return Err(e),
    }
    if remove_id(offers, id) {
        Ok(204)
    } else {
        Err(refuse(404, "Pending badge offer not found"))
    }
}

/// Whether the answer shows the badge.
pub open spec fn badge_shown(s: HeldBadgeResponse, x: WithPayload<HubBadgeRow>) -> bool {
    &&& s.id == x.row.id
    &&& s.issuer_pubkey == x.row.issuer_pubkey
    &&& s.issuer_url == x.row.issuer_url
    &&& s.label == x.row.label
    &&& x.payload matches Ok(p) && same_badge(s.payload, p)
    &&& s.accepted_at == x.row.accepted_at
}

/// The badges that this hub holds, as they stand in the list.
pub fn list_badges(perms: &UserPermissions, badges: &Vec<WithPayload<HubBadgeRow>>) -> (r: Result<
    Vec<HeldBadgeResponse>,
    HubError,
>)
    ensures
        match list_refusal(*perms, badges@) {
            Some(d) => refused(r, d),
            None => r matches Ok(v) && v@.len() == badges@.len() && (forall|i: int|
                0 <= i < badges@.len() ==> badge_shown(#[trigger] v@[i], badges@[i])),
        },
{
    match may_list(perms, badges) {
        Ok(_) => {},
        Err(e) => return Err(e),
    }
    let mut out: Vec<HeldBadgeResponse> = Vec::new();
    let mut i: usize = 0;
    while i < badges.len()
        invariant
            i <= badges@.len(),
            out@.len() == i,
            forall|k: int| 0 <= k < badges@.len() ==> (#[trigger] badges@[k]).payload is Ok,
            forall|k: int| 0 <= k < i ==> badge_shown(#[trigger] out@[k], badges@[k]),
        decreases badges@.len() - i,
    {
        let x = &badges[i];
        match &x.payload {
            Ok(p) => {
                out.push(
                    HeldBadgeResponse {
                        id: x.row.id.clone(),
                        issuer_pubkey: x.row.issuer_pubkey.clone(),
                        issuer_url: x.row.issuer_url.clone(),
                        label: x.row.label.clone(),
                        payload: copy_badge(p),
                        accepted_at: x.row.accepted_at.clone(),
                    },
                );
            },
            Err(_) => {
                assert(badges@[i as int].payload is Ok);
            },
        }
        i = i + 1;
    }
    Ok(out)
}

/// Gives a badge up. The answer has no content.
pub fn delete_badge(perms: &UserPermissions, badges: &mut Vec<HubBadgeRow>, id: &str) -> (r: Result<
    u16,
    HubError,
>)
    ensures
        match perms.refusal(ADMIN@) {
            Some(d) => refused(r, d) && final(badges)@ == old(badges)@,
            None => {
                &&& final(badges)@ == old(badges)@.filter(is_not(id@))
                &&& if has_id(old(badges)@, id@) {
                    r == Ok::<u16, HubError>(204)
                } else {
                    refused(r, hub_refusal(404, "Badge not found"@))
                }
            },
        },
{
    match perms.require(ADMIN) {
        Ok(_) => {},
        Err(e) => return Err(e),
    }
    if remove_id(badges, id) {
        Ok(204)
    } else {
        Err(refuse(404, "Badge not found"))
    }
}

/// Where the badge is to go: the address of the other hub, without slashes at its end.
pub fn recipient_url(perms: &UserPermissions, req: &IssueBadgeRequest) -> (r: Result<
    String,
    HubError,
>)
    ensures
        match perms.refusal(ADMIN@) {
            Some(d) => refused(r, d),
            None => r matches Ok(u) && u@ == without_trailing_slashes(req.recipient_hub_url@),
        },
{
    match perms.require(ADMIN) {
        Ok(_) => Ok(trim_end_slashes(req.recipient_hub_url.as_str())),
        Err(e) => Err(e),
    }
}

/// Whether the payload says what the request asks for: issued now, and good for so many days
/// where a number is given.
pub open spec fn badge_says(
    p: BadgePayload,
    req: IssueBadgeRequest,
    our_pubkey: Seq<char>,
    our_url: Option<Seq<char>>,
    recipient: Seq<char>,
    now: u64,
) -> bool {
    &&& p.issuer_pubkey@ == our_pubkey
    &&& p.issuer_url@ == match our_url {
        Some(u) => u,
        None => Seq::empty(),
    }
    &&& p.subject_pubkey@ == recipient
    &&& p.label@ == req.label@
    &&& p.issued_at@ == iso_text(now as int)
    &&& opt_text(p.expires_at) == match req.expires_days {
        Some(d) => Some(iso_text(now + d * 86400)),
        None => None,
    }
}

/// What the badge says, given the key of the other hub, or why that hub did not answer.
pub fn badge_payload(
    req: &IssueBadgeRequest,
    our_pubkey: &str,
    our_url: &Option<String>,
    recipient: &Result<String, String>,
    now: u64,
) -> (r: Result<BadgePayload, HubError>)
    requires
        now <= u64::MAX - u32::MAX * 86400,
    ensures
        match recipient {
            Err(f) => refused(r, hub_refusal(502, "Cannot reach recipient hub: "@ + f@)),
            Ok(key) => r matches Ok(p) && badge_says(
                p,
                *req,
                our_pubkey@,
                opt_text(*our_url),
                key@,
                now,
            ),
        },
{
    match recipient {
        Err(f) => Err(refuse_text(502, concat2("Cannot reach recipient hub: ", f.as_str()))),
        Ok(key) => {
            let issuer_url: String = match our_url {
                Some(u) => u.clone(),
                None => String::new(),
            };
            let expires_at: Option<String> = match req.expires_days {
                Some(d) => Some(iso_from_unix(now + d as u64 * 86400)),
                None => None,
            };
            Ok(
                BadgePayload {
                    issuer_pubkey: our_pubkey.to_owned(),
                    issuer_url,
                    subject_pubkey: key.clone(),
                    label: req.label.clone(),
                    issued_at: iso_from_unix(now),
                    expires_at,
                },
            )
        },
    }
}

/// A badge that was given: the row to store, and the answer.
pub struct IssuedBadge {
    pub row: IssuedBadgeRow,
    pub response: IssuedBadgeResponse,
}

/// Gives a badge: given the signed payload, as JSON text too, and why the other hub did not
/// take the offer, where it did not.
pub fn issue_badge(
    payload: BadgePayload,
    payload_json: &str,
    signature: &str,
    recipient_hub_url: &str,
    delivery_fault: &Option<String>,
    id: &str,
) -> (r: Result<IssuedBadge, HubError>)
    ensures
        match delivery_fault {
            Some(f) => refused(r, hub_refusal(502, "Failed to deliver badge offer: "@ + f@)),
            None => r matches Ok(x) && ({
                &&& x.row.id@ == id@
                &&& x.row.recipient_hub_url@ == recipient_hub_url@
                &&& x.row.recipient_hub_pubkey@ == payload.subject_pubkey@
                &&& x.row.label@ == payload.label@
                &&& x.row.payload@ == payload_json@
                &&& x.row.signature@ == signature@
                &&& x.row.issued_at@ == payload.issued_at@
                &&& opt_text(x.row.expires_at) == opt_text(payload.expires_at)
                &&& x.response.id@ == id@
                &&& x.response.recipient_hub_url@ == recipient_hub_url@
                &&& x.response.recipient_hub_pubkey@ == payload.subject_pubkey@
                &&& x.response.label@ == payload.label@
                &&& x.response.payload == payload
                &&& x.response.issued_at@ == payload.issued_at@
                &&& opt_text(x.response.expires_at) == opt_text(payload.expires_at)
            }),
        },
{
    match delivery_fault {
        Some(f) => Err(refuse_text(502, concat2("Failed to deliver badge offer: ", f.as_str()))),
        None => {
            let row = IssuedBadgeRow {
                id: id.to_owned(),
                recipient_hub_url: recipient_hub_url.to_owned(),
                recipient_hub_pubkey: payload.subject_pubkey.clone(),
                label: payload.label.clone(),
                payload: payload_json.to_owned(),
                signature: signature.to_owned(),
                issued_at: payload.issued_at.clone(),
                expires_at: payload.expires_at.clone(),
            };
            let response = IssuedBadgeResponse {
                id: id.to_owned(),
                recipient_hub_url: recipient_hub_url.to_owned(),
                recipient_hub_pubkey: payload.subject_pubkey.clone(),
                label: payload.label.clone(),
                issued_at: payload.issued_at.clone(),
                expires_at: payload.expires_at.clone(),
                payload,
            };
            Ok(IssuedBadge { row, response })
        },
    }
}

/// Whether the answer shows the badge that was given.
pub open spec fn issued_shown(s: IssuedBadgeResponse, x: WithPayload<IssuedBadgeRow>) -> bool {
    &&& s.id == x.row.id
    &&& s.recipient_hub_url == x.row.recipient_hub_url
    &&& s.recipient_hub_pubkey == x.row.recipient_hub_pubkey
    &&& s.label == x.row.label
    &&& x.payload matches Ok(p) && same_badge(s.payload, p)
    &&& s.issued_at == x.row.issued_at
    &&& opt_text(s.expires_at) == opt_text(x.row.expires_at)
}

/// The badges that this hub gave, as they stand in the list.
pub fn list_issued(perms: &UserPermissions, badges: &Vec<WithPayload<IssuedBadgeRow>>) -> (r:
    Result<Vec<IssuedBadgeResponse>, HubError>)
    ensures
        match list_refusal(*perms, badges@) {
            Some(d) => refused(r, d),
            None => r matches Ok(v) && v@.len() == badges@.len() && (forall|i: int|
                0 <= i < badges@.len() ==> issued_shown(#[trigger] v@[i], badges@[i])),
        },
{
    match may_list(perms, badges) {
        Ok(_) => {},
        Err(e) => return Err(e),
    }
    let mut out: Vec<IssuedBadgeResponse> = Vec::new();
    let mut i: usize = 0;
    while i < badges.len()
        invariant
            i <= badges@.len(),
            out@.len() == i,
            forall|k: int| 0 <= k < badges@.len() ==> (#[trigger] badges@[k]).payload is Ok,
            forall|k: int| 0 <= k < i ==> issued_shown(#[trigger] out@[k], badges@[k]),
        decreases badges@.len() - i,
    {
        let x = &badges[i];
        match &x.payload {
            Ok(p) => {
                out.push(
                    IssuedBadgeResponse {
                        id: x.row.id.clone(),
                        recipient_hub_url: x.row.recipient_hub_url.clone(),
                        recipient_hub_pubkey: x.row.recipient_hub_pubkey.clone(),
                        label: x.row.label.clone(),
                        payload: copy_badge(p),
                        issued_at: x.row.issued_at.clone(),
                        expires_at: x.row.expires_at.clone(),
                    },
                );
            },
            Err(_) => {
                assert(badges@[i as int].payload is Ok);
            },
        }
        i = i + 1;
    }
    Ok(out)
}

/// Whether the payload has not run out at the moment, which is given as a text.
pub open spec fn unexpired(p: BadgePayload, now_iso: Seq<char>) -> bool {
    match p.expires_at {
        Some(e) => text_lt(now_iso, e@),
        None => true,
    }
}

/// The badges that can be read and have not run out, as a condition.
pub open spec fn is_active(now_iso: Seq<char>) -> spec_fn(WithPayload<HubBadgeRow>) -> bool {
    |x: WithPayload<HubBadgeRow>| x.payload matches Ok(p) && unexpired(p, now_iso)
}

/// Whether the envelope holds the badge.
pub open spec fn envelops(e: BadgeEnvelope, x: WithPayload<HubBadgeRow>) -> bool {
    x.payload matches Ok(p) && same_badge(e.payload, p) && e.signature == x.row.signature
}

/// The badges to show to everyone: those that can be read and have not run out.
pub fn load_active_badges(badges: &Vec<WithPayload<HubBadgeRow>>, now_iso: &str) -> (r: Vec<
    BadgeEnvelope,
>)
    ensures
        r@.len() == badges@.filter(is_active(now_iso@)).len(),
        forall|i: int|
            0 <= i < r@.len() ==> envelops(
                #[trigger] r@[i],
                badges@.filter(is_active(now_iso@))[i],
            ),
{
    let mut out: Vec<BadgeEnvelope> = Vec::new();
    let ghost f = is_active(now_iso@);
    let mut i: usize = 0;
    assert(badges@.take(0) =~= Seq::<WithPayload<HubBadgeRow>>::empty());
    reveal(Seq::filter);
    while i < badges.len()
        invariant
            i <= badges@.len(),
            f == is_active(now_iso@),
            out@.len() == badges@.take(i as int).filter(f).len(),
            forall|k: int|
                0 <= k < out@.len() ==> envelops(
                    #[trigger] out@[k],
                    badges@.take(i as int).filter(f)[k],
                ),
        decreases badges@.len() - i,
    {
        proof {
            lemma_filter_step(badges@, f, i as int);
        }
        let x = &badges[i];
        match &x.payload {
            Ok(p) => {
                let good = match &p.expires_at {
                    Some(e) => less(now_iso, e.as_str()),
                    None => true,
                };
                if good {
                    out.push(
                        BadgeEnvelope {
                            payload: copy_badge(p),
                            signature: x.row.signature.clone(),
                        },
                    );
                }
            },
            Err(_) => {},
        }
        i = i + 1;
    }
    assert(badges@.take(badges@.len() as int) =~= badges@);
    out
}

/// A badge for so many days is shown until they are over, and not from then on, up to the year
/// 9999.
pub proof fn badge_lasts_its_days(
    p: BadgePayload,
    req: IssueBadgeRequest,
    our_pubkey: Seq<char>,
    our_url: Option<Seq<char>>,
    recipient: Seq<char>,
    issued: u64,
    now: u64,
)
    requires
        badge_says(p, req, our_pubkey, our_url, recipient, issued),
        req.expires_days is Some,
        civil_date((issued + req.expires_days->0 * 86400) / 86400).year <= 9999,
        civil_date(now as int / 86400).year <= 9999,
    ensures
        unexpired(p, iso_text(now as int)) <==> now < issued + req.expires_days->0 * 86400,
{
    let end = issued + req.expires_days->0 * 86400;
    if now < end {
        iso_texts_order_as_time(now as int, end);
    } else if end < now {
        iso_texts_order_as_time(end, now as int);
        if text_lt(iso_text(now as int), iso_text(end)) {
            lemma_text_lt_transitive(iso_text(end), iso_text(now as int), iso_text(end));
        }
        lemma_text_lt_irreflexive(iso_text(end));
    } else {
        lemma_text_lt_irreflexive(iso_text(end));
    }
}

/// An offer is accepted by admins only, if it is signed by the hub that made it and is about this
/// hub: the badge that is then held says what was offered, and the offer is gone; no other offer
/// is. Where it is refused everything stays.
pub proof fn a_good_offer_is_accepted(
    perms: &UserPermissions,
    offers: &mut Vec<WithPayload<BadgeOfferRow>>,
    id: &str,
    signed: bool,
    our_pubkey: &str,
    badge_id: &str,
    accepted_at: &str,
    r: Result<HubBadgeRow, HubError>,
    i: int,
    other: WithPayload<BadgeOfferRow>,
)
    requires
        call_ensures(
            accept_pending,
            (perms, offers, id, signed, our_pubkey, badge_id, accepted_at),
            r,
        ),
        0 <= i < old(offers)@.len(),
        old(offers)@[i].row.id@ == id@,
        forall|k: int|
            0 <= k < old(offers)@.len() && (#[trigger] old(offers)@[k]).row.id@ == id@ ==> k == i,
    ensures
        r is Ok <==> allows(*perms, "admin"@) && signed && hex_bytes(
            old(offers)@[i].row.signature@,
        ) is Some && (old(offers)@[i].payload matches Ok(p) && p.subject_pubkey@ == our_pubkey@),
        !allows(*perms, "admin"@) ==> r->Err_0.status == 403,
        r is Err ==> final(offers)@ == old(offers)@,
        r is Ok ==> (final(offers)@.contains(other) <==> old(offers)@.contains(other)
            && other.row.id@ != id@),
        r matches Ok(b) ==> b.id@ == badge_id@ && b.issuer_pubkey@
            == old(offers)@[i].row.from_hub_pubkey@ && b.issuer_url@
            == old(offers)@[i].row.from_hub_url@ && b.label@ == old(offers)@[i].row.label@
            && b.payload@ == old(offers)@[i].row.payload@ && b.signature@
            == old(offers)@[i].row.signature@ && b.accepted_at@ == accepted_at@,
{
    lemma_may_is_allowed(*perms, ADMIN@);
    lemma_first_match(old(offers)@, is_row::<WithPayload<BadgeOfferRow>>(id@), i);
    lemma_kept(old(offers)@, is_not::<WithPayload<BadgeOfferRow>>(id@), other);
}

/// An offer that is not there is not found.
pub proof fn no_offer_is_no_badge(
    perms: &UserPermissions,
    offers: &mut Vec<WithPayload<BadgeOfferRow>>,
    id: &str,
    signed: bool,
    our_pubkey: &str,
    badge_id: &str,
    accepted_at: &str,
    r: Result<HubBadgeRow, HubError>,
)
    requires
        call_ensures(
            accept_pending,
            (perms, offers, id, signed, our_pubkey, badge_id, accepted_at),
            r,
        ),
        forall|k: int| 0 <= k < old(offers)@.len() ==> (#[trigger] old(offers)@[k]).row.id@ != id@,
    ensures
        r is Err,
        allows(*perms, "admin"@) ==> r->Err_0.status == 404,
        final(offers)@ == old(offers)@,
{
    lemma_may_is_allowed(*perms, ADMIN@);
    lemma_no_match(old(offers)@, is_row::<WithPayload<BadgeOfferRow>>(id@));
}

/// The signature of an offer is held against the key of the hub that made it, and what it says.
pub proof fn offers_are_held_against_their_hub(offer: &BadgeOfferRow, c: Option<SignatureClaim>)
    requires
        call_ensures(offer_claim, (offer,), c),
    ensures
        c is Some <==> hex_bytes(offer.signature@) is Some,
        c matches Some(x) ==> x.key@ == offer.from_hub_pubkey@ && x.message@ == encode_utf8(
            offer.payload@,
        ) && Some(x.signature@) == hex_bytes(offer.signature@),
{
}

/// An offer that is declined and a badge that is given up are gone, and no other is; only an
/// admin does so, and only of what is there.
pub proof fn what_is_declined_is_gone(
    perms: &UserPermissions,
    offers: &mut Vec<BadgeOfferRow>,
    badges: &mut Vec<HubBadgeRow>,
    id: &str,
    a: Result<u16, HubError>,
    b: Result<u16, HubError>,
    offer: BadgeOfferRow,
    badge: HubBadgeRow,
)
    requires
        call_ensures(decline_pending, (perms, offers, id), a),
        call_ensures(delete_badge, (perms, badges, id), b),
    ensures
        a is Ok <==> allows(*perms, "admin"@) && exists|i: int|
            0 <= i < old(offers)@.len() && (#[trigger] old(offers)@[i]).id@ == id@,
        b is Ok <==> allows(*perms, "admin"@) && exists|i: int|
            0 <= i < old(badges)@.len() && (#[trigger] old(badges)@[i]).id@ == id@,
        a matches Ok(s) ==> s == 204,
        b matches Ok(s) ==> s == 204,
        a matches Err(e) ==> e.status == if allows(*perms, "admin"@) {
            404int
        } else {
            403
        },
        b matches Err(e) ==> e.status == if allows(*perms, "admin"@) {
            404int
        } else {
            403
        },
        !allows(*perms, "admin"@) ==> final(offers)@ == old(offers)@ && final(badges)@ == old(badges)@,
        a is Ok ==> (final(offers)@.contains(offer) <==> old(offers)@.contains(offer) && offer.id@
            != id@),
        b is Ok ==> (final(badges)@.contains(badge) <==> old(badges)@.contains(badge) && badge.id@
            != id@),
{
    lemma_may_is_allowed(*perms, ADMIN@);
    lemma_kept(old(offers)@, is_not::<BadgeOfferRow>(id@), offer);
    lemma_kept(old(badges)@, is_not::<HubBadgeRow>(id@), badge);
    if exists|i: int| 0 <= i < old(offers)@.len() && (#[trigger] old(offers)@[i]).id@ == id@ {
        let i: int = choose|i: int|
            0 <= i < old(offers)@.len() && (#[trigger] old(offers)@[i]).id@ == id@;
        assert(old(offers)@[i].row_id() == id@);
    }
    if exists|i: int| 0 <= i < old(badges)@.len() && (#[trigger] old(badges)@[i]).id@ == id@ {
        let i: int = choose|i: int|
            0 <= i < old(badges)@.len() && (#[trigger] old(badges)@[i]).id@ == id@;
        assert(old(badges)@[i].row_id() == id@);
    }
}

/// A badge says who gives it, to whom and what for, when, and until when where days are given; it
/// goes to the address without the slashes at its end. A hub that does not answer gets none.
pub proof fn a_badge_says_what_was_asked_for(
    perms: &UserPermissions,
    req: &IssueBadgeRequest,
    our_pubkey: &str,
    our_url: &Option<String>,
    recipient: &Result<String, String>,
    now: u64,
    r: Result<BadgePayload, HubError>,
    url: Result<String, HubError>,
    issued: String,
    over: String,
    over_at: u64,
)
    requires
        now <= u64::MAX - u32::MAX * 86400,
        call_ensures(badge_payload, (req, our_pubkey, our_url, recipient, now), r),
        call_ensures(recipient_url, (perms, req), url),
        call_ensures(iso_from_unix, (now,), issued),
        req.expires_days matches Some(d) ==> over_at == now + d * 86400,
        call_ensures(iso_from_unix, (over_at,), over),
    ensures
        r is Ok <==> *recipient is Ok,
        r matches Err(e) ==> e.status == 502,
        r matches Ok(p) ==> p.issuer_pubkey@ == our_pubkey@ && p.subject_pubkey@
            == recipient->Ok_0@ && p.label@ == req.label@ && p.issued_at@ == issued@,
        r matches Ok(p) ==> (our_url matches Some(u) ==> p.issuer_url@ == u@) && (our_url is None
            ==> p.issuer_url@.len() == 0),
        r matches Ok(p) ==> (p.expires_at is Some <==> req.expires_days is Some) && (p.expires_at
            matches Some(e) ==> e@ == over@),
        url is Ok <==> allows(*perms, "admin"@),
        url matches Ok(u) ==> u@ == without_trailing_slashes(req.recipient_hub_url@),
{
    lemma_may_is_allowed(*perms, ADMIN@);
}

/// A badge that the other hub took is recorded as it was signed, and shown so; one that it did
/// not take is not recorded.
pub proof fn a_badge_that_was_taken_is_recorded(
    payload: BadgePayload,
    payload_json: &str,
    signature: &str,
    url: &str,
    fault: &Option<String>,
    id: &str,
    r: Result<IssuedBadge, HubError>,
)
    requires
        call_ensures(issue_badge, (payload, payload_json, signature, url, fault, id), r),
    ensures
        r is Ok <==> fault is None,
        r matches Err(e) ==> e.status == 502,
        r matches Ok(x) ==> x.row.id@ == id@ && x.row.recipient_hub_url@ == url@
            && x.row.recipient_hub_pubkey@ == payload.subject_pubkey@ && x.row.label@
            == payload.label@ && x.row.payload@ == payload_json@ && x.row.signature@ == signature@
            && x.row.issued_at@ == payload.issued_at@ && opt_text(x.row.expires_at) == opt_text(
            payload.expires_at,
        ) && x.response.id@ == id@ && x.response.payload == payload
            && x.response.recipient_hub_url@ == url@ && x.response.label@ == payload.label@
            && x.response.recipient_hub_pubkey@ == payload.subject_pubkey@ && opt_text(
            x.response.expires_at,
        ) == opt_text(payload.expires_at) && x.response.issued_at@ == payload.issued_at@,
{
}

/// Everyone is shown the badges that can be read and have not run out, with what they say and
/// their signature, and no other.
pub proof fn only_badges_that_stand_are_shown(
    badges: &Vec<WithPayload<HubBadgeRow>>,
    now_iso: &str,
    r: Vec<BadgeEnvelope>,
    i: int,
    k: int,
)
    requires
        call_ensures(load_active_badges, (badges, now_iso), r),
    ensures
        0 <= i < badges@.len() && badges@[i].payload is Ok && (badges@[i].payload->Ok_0.expires_at
            is None || text_lt(now_iso@, badges@[i].payload->Ok_0.expires_at->0@)) ==> exists|
            m: int,
        |
            0 <= m < r@.len() && (#[trigger] r@[m]).signature == badges@[i].row.signature
                && r@[m].payload.label == badges@[i].payload->Ok_0.label
                && r@[m].payload.subject_pubkey == badges@[i].payload->Ok_0.subject_pubkey
                && r@[m].payload.issuer_pubkey == badges@[i].payload->Ok_0.issuer_pubkey
                && r@[m].payload.issuer_url == badges@[i].payload->Ok_0.issuer_url
                && r@[m].payload.issued_at == badges@[i].payload->Ok_0.issued_at && opt_text(
                r@[m].payload.expires_at,
            ) == opt_text(badges@[i].payload->Ok_0.expires_at),
        0 <= k < r@.len() ==> exists|m: int|
            0 <= m < badges@.len() && (#[trigger] badges@[m]).payload is Ok
                && badges@[m].row.signature == r@[k].signature && badges@[m].payload->Ok_0.label
                == r@[k].payload.label && badges@[m].payload->Ok_0.issuer_pubkey
                == r@[k].payload.issuer_pubkey && badges@[m].payload->Ok_0.subject_pubkey
                == r@[k].payload.subject_pubkey && (badges@[m].payload->Ok_0.expires_at is None
                || text_lt(now_iso@, badges@[m].payload->Ok_0.expires_at->0@)),
{
    let p = is_active(now_iso@);
    let a = badges@.filter(p);
    if 0 <= i < badges@.len() {
        lemma_kept(badges@, p, badges@[i]);
        if p(badges@[i]) {
            let m: int = choose|m: int| 0 <= m < a.len() && a[m] == badges@[i];
            assert(envelops(r@[m], a[m]));
        }
    }
    if 0 <= k < r@.len() {
        assert(envelops(r@[k], a[k]));
        assert(a.contains(a[k]));
        lemma_kept(badges@, p, a[k]);
        let m: int = choose|m: int| 0 <= m < badges@.len() && badges@[m] == a[k];
        assert(badges@[m].payload is Ok);
    }
}

/// The lists of badges are for admins: every row, in order, with what it says.
pub proof fn badges_are_listed_to_admins(
    perms: &UserPermissions,
    offers: &Vec<WithPayload<BadgeOfferRow>>,
    held: &Vec<WithPayload<HubBadgeRow>>,
    given: &Vec<WithPayload<IssuedBadgeRow>>,
    a: Result<Vec<PendingBadgeResponse>, HubError>,
    b: Result<Vec<HeldBadgeResponse>, HubError>,
    c: Result<Vec<IssuedBadgeResponse>, HubError>,
    i: int,
)
    requires
        call_ensures(list_pending, (perms, offers), a),
        call_ensures(list_badges, (perms, held), b),
        call_ensures(list_issued, (perms, given), c),
    ensures
        a is Ok <==> allows(*perms, "admin"@) && forall|k: int|
            0 <= k < offers@.len() ==> (#[trigger] offers@[k]).payload is Ok,
        b is Ok <==> allows(*perms, "admin"@) && forall|k: int|
            0 <= k < held@.len() ==> (#[trigger] held@[k]).payload is Ok,
        c is Ok <==> allows(*perms, "admin"@) && forall|k: int|
            0 <= k < given@.len() ==> (#[trigger] given@[k]).payload is Ok,
        a matches Ok(v) ==> v@.len() == offers@.len(),
        b matches Ok(v) ==> v@.len() == held@.len(),
        c matches Ok(v) ==> v@.len() == given@.len(),
        a is Ok && 0 <= i < offers@.len() ==> a->Ok_0@[i].id@ == offers@[i].row.id@
            && a->Ok_0@[i].from_hub_pubkey@ == offers@[i].row.from_hub_pubkey@
            && a->Ok_0@[i].from_hub_url@ == offers@[i].row.from_hub_url@ && a->Ok_0@[i].label@
            == offers@[i].row.label@ && opt_text(a->Ok_0@[i].note) == opt_text(offers@[i].row.note)
            && a->Ok_0@[i].payload.label == offers@[i].payload->Ok_0.label
            && a->Ok_0@[i].payload.subject_pubkey == offers@[i].payload->Ok_0.subject_pubkey
            && a->Ok_0@[i].created_at@ == offers@[i].row.created_at@,
        b is Ok && 0 <= i < held@.len() ==> b->Ok_0@[i].id@ == held@[i].row.id@
            && b->Ok_0@[i].issuer_pubkey@ == held@[i].row.issuer_pubkey@ && b->Ok_0@[i].label@
            == held@[i].row.label@ && b->Ok_0@[i].accepted_at@ == held@[i].row.accepted_at@
            && b->Ok_0@[i].issuer_url@ == held@[i].row.issuer_url@ && b->Ok_0@[i].payload.label
            == held@[i].payload->Ok_0.label,
        c is Ok && 0 <= i < given@.len() ==> c->Ok_0@[i].id@ == given@[i].row.id@
            && c->Ok_0@[i].recipient_hub_pubkey@ == given@[i].row.recipient_hub_pubkey@
            && c->Ok_0@[i].label@ == given@[i].row.label@ && opt_text(c->Ok_0@[i].expires_at)
            == opt_text(given@[i].row.expires_at) && c->Ok_0@[i].recipient_hub_url@
            == given@[i].row.recipient_hub_url@ && c->Ok_0@[i].issued_at@
            == given@[i].row.issued_at@ && c->Ok_0@[i].payload.label
            == given@[i].payload->Ok_0.label,
{
    lemma_may_is_allowed(*perms, ADMIN@);
    lemma_match_holds(offers@, is_unreadable::<BadgeOfferRow>());
    lemma_match_holds(held@, is_unreadable::<HubBadgeRow>());
    lemma_match_holds(given@, is_unreadable::<IssuedBadgeRow>());
    if a is Ok && 0 <= i < offers@.len() {
        assert(offer_shown(a->Ok_0@[i], offers@[i]));
    }
    if b is Ok && 0 <= i < held@.len() {
        assert(badge_shown(b->Ok_0@[i], held@[i]));
    }
    if c is Ok && 0 <= i < given@.len() {
        assert(issued_shown(c->Ok_0@[i], given@[i]));
    }
}

} // verus!
