//! Certifications: what the hub vouches for, and what it asks of those who come.
use vstd::prelude::*;
use crate::codec::{hex_bytes, hex_decode};
use crate::hub::permissions::{UserPermissions, ADMIN};
use crate::hub::{
    claim_over, hub_refusal, is_claim, refuse, refuse_text, refused, HubError, HubRefusal,
    SignatureClaim,
};
use crate::number::{parse_signed, signed_value};
use crate::rows::lemma_kept;
use crate::text::{concat2, copy_texts, is_text, opt_text, same};
use vstd::utf8::encode_utf8;

verus! {

/// What a hub says of a member, and signs.
#[derive(Clone)]
pub struct CertPayload {
    pub subject_kind: String,
    pub issuer_pubkey: String,
    pub issuer_url: String,
    pub subject_pubkey: String,
    pub member_since: i64,
    pub standing: String,
    pub pow_level: Option<u8>,
    pub issued_at: i64,
    pub expires_at: i64,
    pub capabilities: Vec<String>,
}

/// A certification: what is said, and the signature of the hub that says it.
#[derive(Clone)]
pub struct Certification {
    pub payload: CertPayload,
    pub signature: String,
}

/// Changes to the settings. The issuers and the requirements are JSON text.
pub struct CertSettingsPatch {
    pub cert_auto_issue: Option<String>,
    pub cert_standing_days: Option<String>,
    pub cert_validity_days: Option<String>,
    pub cert_mode: Option<String>,
    pub cert_trusted_issuers: Option<String>,
    pub cert_require: Option<String>,
    pub cert_min_pow_level: Option<String>,
}

/// A hub whose word counts here.
#[derive(Clone)]
pub struct TrustedIssuer {
    pub pubkey: String,
    pub url: String,
    pub label: String,
}

/// What a certification must say beyond being good.
#[derive(Clone)]
pub struct CertRequire {
    pub min_pow_level: Option<u8>,
    pub min_member_since_days: Option<u32>,
}

/// What the hub asks of those who come, as it tells everyone.
#[derive(Clone)]
pub struct CertRequirement {
    pub mode: String,
    pub trusted_issuers: Vec<TrustedIssuer>,
    pub require: CertRequire,
}

/// A certification as the ledger has it.
pub struct IssuanceDbRow {
    pub id: String,
    pub subject_pubkey: String,
    pub pow_level: Option<i64>,
    pub member_since: i64,
    pub issued_at: i64,
    pub expires_at: i64,
    pub revoked_at: Option<i64>,
    pub standing: String,
    pub payload_json: String,
    pub signature: String,
}

/// A certification as the admin sees it.
pub struct IssuanceRow {
    pub id: String,
    pub subject_pubkey: String,
    pub pow_level: Option<u8>,
    pub member_since: i64,
    pub issued_at: i64,
    pub expires_at: i64,
    pub revoked_at: Option<i64>,
    pub standing: String,
    pub payload: CertPayload,
}

/// What is known of a member when a certification is asked for.
pub struct MemberStanding {
    pub first_seen_at: i64,
    pub approval_status: String,
    pub pow_level: Option<i64>,
}

/// The number that a setting holds; the default where it is absent or unreadable.
pub open spec fn setting_or(setting: Option<Seq<char>>, default: int) -> int {
    match setting {
        Some(s) => match signed_value(s) {
            Some(n) => n,
            None => default,
        },
        None => default,
    }
}

/// The number that a setting holds; the default where it is absent or unreadable.
pub fn setting_i64(setting: &Option<String>, default: i64) -> (r: i64)
    ensures
        r == setting_or(opt_text(*setting), default as int),
{
    match setting {
        Some(s) => {
            proof {
                lemma_signed_in_range(s@);
            }
            match parse_signed(s.as_str()) {
                Some(n) => n,
                None => default,
            }
        },
        None => default,
    }
}

/// A number that can be read fits into 64 bits.
pub proof fn lemma_signed_in_range(s: Seq<char>)
    ensures
        match signed_value(s) {
            Some(n) => i64::MIN <= n <= i64::MAX,
            None => true,
        },
{
}

/// The end of a certification, counted from now, by the setting: 90 days where it is absent.
pub open spec fn expiry_of(validity: Option<Seq<char>>, now: i64) -> int {
    now + setting_or(validity, 90) * 86400
}

/// Whether the end of a certification can be written down.
pub open spec fn expiry_fits(validity: Option<Seq<char>>, now: i64) -> bool {
    &&& i64::MIN <= setting_or(validity, 90) * 86400 <= i64::MAX
    &&& i64::MIN <= expiry_of(validity, now) <= i64::MAX
}

/// Whether the end of a certification can be written down.
pub fn check_expiry(validity_setting: &Option<String>, now: i64) -> (r: bool)
    ensures
        r == expiry_fits(opt_text(*validity_setting), now),
{
    let days: i64 = setting_i64(validity_setting, 90);
    let span: i128 = days as i128 * 86400;
    let end: i128 = now as i128 + span;
    span >= -9223372036854775808 && span <= 9223372036854775807 && end >= -9223372036854775808
        && end <= 9223372036854775807
}

/// Why the member gets no certification, where they get none.
pub open spec fn issue_refusal(member: Option<MemberStanding>, banned: bool) -> Option<HubRefusal> {
    match member {
        None => Some(hub_refusal(404, "User not found"@)),
        Some(m) => if m.approval_status@ != "approved"@ {
            Some(hub_refusal(403, "User is not approved"@))
        } else if banned {
            Some(hub_refusal(403, "User is banned"@))
        } else {
            None
        },
    }
}

/// The level of work that a certification states; none where the member has shown none.
pub open spec fn stated_pow(stored: Option<i64>) -> Option<u8> {
    match stored {
        Some(n) => if n > 0 {
            Some(n as u8)
        } else {
            None
        },
        None => None,
    }
}

/// Whether the payload vouches for the member.
pub open spec fn vouches(
    p: CertPayload,
    m: MemberStanding,
    issuer: Seq<char>,
    url: Option<Seq<char>>,
    subject: Seq<char>,
    now: i64,
    expires_at: int,
) -> bool {
    &&& p.subject_kind@ == "user"@
    &&& p.issuer_pubkey@ == issuer
    &&& p.issuer_url@ == match url {
        Some(u) => u,
        None => Seq::empty(),
    }
    &&& p.subject_pubkey@ == subject
    &&& p.member_since == m.first_seen_at
    &&& p.standing@ == "good"@
    &&& p.pow_level == stated_pow(m.pow_level)
    &&& p.issued_at == now
    &&& p.expires_at == expires_at
    &&& p.capabilities@.len() == 0
}

fn url_or_empty(url: &Option<String>) -> (r: String)
    ensures
        r@ == match url {
            Some(u) => u@,
            None => Seq::empty(),
        },
{
    match url {
        Some(u) => u.clone(),
        None => String::new(),
    }
}

/// What the hub says of a member who gets a certification; it is then signed.
pub fn issue_cert_for(
    member: &Option<MemberStanding>,
    banned: bool,
    validity_setting: &Option<String>,
    our_pubkey: &str,
    hub_url: &Option<String>,
    subject_pubkey: &str,
    now: i64,
) -> (r: Result<CertPayload, HubError>)
    requires
        expiry_fits(opt_text(*validity_setting), now),
    ensures
        match issue_refusal(*member, banned) {
            Some(d) => refused(r, d),
            None => r matches Ok(p) && vouches(
                p,
                member->0,
                our_pubkey@,
                opt_text(*hub_url),
                subject_pubkey@,
                now,
                expiry_of(opt_text(*validity_setting), now),
            ),
        },
{
    match member {
        None => Err(refuse(404, "User not found")),
        Some(m) => {
            if !same(m.approval_status.as_str(), "approved") {
                return Err(refuse(403, "User is not approved"));
            }
            if banned {
                return Err(refuse(403, "User is banned"));
            }
            let days: i64 = setting_i64(validity_setting, 90);
            let pow_level: Option<u8> = match m.pow_level {
                Some(n) => if n > 0 {
                    Some(n as u8)
                } else {
                    None
                },
                None => None,
            };
            Ok(
                CertPayload {
                    subject_kind: "user".to_owned(),
                    issuer_pubkey: our_pubkey.to_owned(),
                    issuer_url: url_or_empty(hub_url),
                    subject_pubkey: subject_pubkey.to_owned(),
                    member_since: m.first_seen_at,
                    standing: "good".to_owned(),
                    pow_level,
                    issued_at: now,
                    expires_at: now + days * 86400,
                    capabilities: Vec::new(),
                },
            )
        },
    }
}

/// Whether the ledger row records the signed payload.
pub open spec fn records(
    row: IssuanceDbRow,
    p: CertPayload,
    id: Seq<char>,
    payload_json: Seq<char>,
    signature: Seq<char>,
) -> bool {
    &&& row.id@ == id
    &&& row.subject_pubkey@ == p.subject_pubkey@
    &&& row.pow_level == match p.pow_level {
        Some(n) => Some(n as i64),
        None => None::<i64>,
    }
    &&& row.member_since == p.member_since
    &&& row.issued_at == p.issued_at
    &&& row.expires_at == p.expires_at
    &&& row.revoked_at == if p.standing@ == "revoked"@ {
        Some(p.issued_at)
    } else {
        None::<i64>
    }
    &&& row.standing@ == p.standing@
    &&& row.payload_json@ == payload_json
    &&& row.signature@ == signature
}

/// The ledger row of a signed payload. One that revokes is revoked from the start.
pub fn record_issuance(p: &CertPayload, id: &str, payload_json: &str, signature: &str) -> (row:
    IssuanceDbRow)
    ensures
        records(row, *p, id@, payload_json@, signature@),
{
    IssuanceDbRow {
        id: id.to_owned(),
        subject_pubkey: p.subject_pubkey.clone(),
        pow_level: match p.pow_level {
            Some(n) => Some(n as i64),
            None => None,
        },
        member_since: p.member_since,
        issued_at: p.issued_at,
        expires_at: p.expires_at,
        revoked_at: if same(p.standing.as_str(), "revoked") {
            Some(p.issued_at)
        } else {
            None
        },
        standing: p.standing.clone(),
        payload_json: payload_json.to_owned(),
        signature: signature.to_owned(),
    }
}

/// The row after the certifications of a member were revoked.
pub open spec fn after_revocation(
    new: IssuanceDbRow,
    before: IssuanceDbRow,
    subject: Seq<char>,
    now: i64,
) -> bool {
    if before.subject_pubkey@ == subject && before.revoked_at is None {
        new.standing@ == "revoked"@ && new == (IssuanceDbRow {
            revoked_at: Some(now),
            standing: new.standing,
            ..before
        })
    } else {
        new == before
    }
}

/// Whether the payload says that the member's certification is revoked.
pub open spec fn denounces(
    p: CertPayload,
    first_seen_at: i64,
    issuer: Seq<char>,
    url: Option<Seq<char>>,
    subject: Seq<char>,
    now: i64,
) -> bool {
    &&& p.subject_kind@ == "user"@
    &&& p.issuer_pubkey@ == issuer
    &&& p.issuer_url@ == match url {
        Some(u) => u,
        None => Seq::empty(),
    }
    &&& p.subject_pubkey@ == subject
    &&& p.member_since == first_seen_at
    &&& p.standing@ == "revoked"@
    &&& p.pow_level is None
    &&& p.issued_at == now
    &&& p.expires_at == now + 86400
    &&& p.capabilities@.len() == 0
}

/// Revokes the certifications of a member in the ledger. Of a member who is known, one that
/// says so is to be signed: it lasts a day.
pub fn revoke_cert_for(
    ledger: &mut Vec<IssuanceDbRow>,
    first_seen_at: Option<i64>,
    our_pubkey: &str,
    hub_url: &Option<String>,
    subject_pubkey: &str,
    now: i64,
) -> (r: Option<CertPayload>)
    requires
        now <= i64::MAX - 86400,
    ensures
        final(ledger)@.len() == old(ledger)@.len(),
        forall|i: int|
            0 <= i < old(ledger)@.len() ==> after_revocation(
                #[trigger] final(ledger)@[i],
                old(ledger)@[i],
                subject_pubkey@,
                now,
            ),
        match first_seen_at {
            None => r is None,
            Some(t) => r matches Some(p) && denounces(
                p,
                t,
                our_pubkey@,
                opt_text(*hub_url),
                subject_pubkey@,
                now,
            ),
        },
{
    let ghost before = ledger@;
    let mut i: usize = 0;
    while i < ledger.len()
        invariant
            i <= ledger@.len(),
            ledger@.len() == before.len(),
            forall|k: int| i <= k < before.len() ==> ledger@[k] == before[k],
            forall|k: int|
                0 <= k < i ==> after_revocation(
                    #[trigger] ledger@[k],
                    before[k],
                    subject_pubkey@,
                    now,
                ),
        decreases ledger@.len() - i,
    {
        if ledger[i].revoked_at.is_none() && same(
            ledger[i].subject_pubkey.as_str(),
            subject_pubkey,
        ) {
            ledger[i].revoked_at = Some(now);
            ledger[i].standing = "revoked".to_owned();
        }
        i = i + 1;
    }
    match first_seen_at {
        None => None,
        Some(t) => Some(
            CertPayload {
                subject_kind: "user".to_owned(),
                issuer_pubkey: our_pubkey.to_owned(),
                issuer_url: url_or_empty(hub_url),
                subject_pubkey: subject_pubkey.to_owned(),
                member_since: t,
                standing: "revoked".to_owned(),
                pow_level: None,
                issued_at: now,
                expires_at: now + 86400,
                capabilities: Vec::new(),
            },
        ),
    }
}

/// A certification in the store of the hub, its payload read from the JSON text, or what was
/// wrong with the text.
pub struct StoredCert {
    pub subject_pubkey: String,
    pub standing: String,
    pub revoked_at: Option<i64>,
    pub expires_at: i64,
    pub payload: Result<CertPayload, String>,
    pub signature: String,
}

/// Whether a certification that this hub issued is still worth showing.
pub open spec fn showable(s: StoredCert, subject: Seq<char>, now: i64) -> bool {
    &&& s.subject_pubkey@ == subject
    &&& s.standing@ == "good"@
    &&& s.revoked_at is None
    &&& s.expires_at > now
}

/// Whether a certification that the user brought is still worth showing.
pub open spec fn brought(s: StoredCert, subject: Seq<char>, now: i64) -> bool {
    s.subject_pubkey@ == subject && s.expires_at > now
}

/// The certifications of this hub for the user, as a condition on the store.
pub open spec fn is_showable(subject: Seq<char>, now: i64) -> spec_fn(StoredCert) -> bool {
    |s: StoredCert| showable(s, subject, now)
}

/// The certifications that the user brought, as a condition on the store.
pub open spec fn is_brought(subject: Seq<char>, now: i64) -> spec_fn(StoredCert) -> bool {
    |s: StoredCert| brought(s, subject, now)
}

/// What is wrong with the first text that cannot be read.
pub open spec fn first_fault(s: Seq<StoredCert>) -> Option<Seq<char>>
    decreases s.len(),
{
    if s.len() == 0 {
        None
    } else {
        match s[0].payload {
            Err(e) => Some(e@),
            Ok(_) => first_fault(s.skip(1)),
        }
    }
}

/// Whether the certification can be read and is not one that revokes.
pub open spec fn stands() -> spec_fn(StoredCert) -> bool {
    |s: StoredCert| s.payload matches Ok(p) && p.standing@ != "revoked"@
}

/// What the signature of a certification is held against: the key of its issuer, and its payload
/// as JSON text.
pub fn certification_claim(cert: &Certification, payload_json: &str) -> (c: Option<SignatureClaim>)
    ensures
        is_claim(
            c,
            cert.payload.issuer_pubkey@,
            Some(encode_utf8(payload_json@)),
            hex_bytes(cert.signature@),
        ),
{
    claim_over(
        cert.payload.issuer_pubkey.as_str(),
        payload_json.as_bytes(),
        cert.signature.as_str(),
    )
}

/// Whether the two payloads say the same.
pub open spec fn same_cert(a: CertPayload, b: CertPayload) -> bool {
    &&& a.subject_kind == b.subject_kind
    &&& a.issuer_pubkey == b.issuer_pubkey
    &&& a.issuer_url == b.issuer_url
    &&& a.subject_pubkey == b.subject_pubkey
    &&& a.member_since == b.member_since
    &&& a.standing == b.standing
    &&& a.pow_level == b.pow_level
    &&& a.issued_at == b.issued_at
    &&& a.expires_at == b.expires_at
    &&& a.capabilities@ == b.capabilities@
}

fn copy_cert(p: &CertPayload) -> (r: CertPayload)
    ensures
        same_cert(r, *p),
{
    CertPayload {
        subject_kind: p.subject_kind.clone(),
        issuer_pubkey: p.issuer_pubkey.clone(),
        issuer_url: p.issuer_url.clone(),
        subject_pubkey: p.subject_pubkey.clone(),
        member_since: p.member_since,
        standing: p.standing.clone(),
        pow_level: p.pow_level,
        issued_at: p.issued_at,
        expires_at: p.expires_at,
        capabilities: copy_texts(&p.capabilities),
    }
}

/// Whether the certification is the stored one.
pub open spec fn is_stored(c: Certification, s: StoredCert) -> bool {
    s.payload matches Ok(p) && same_cert(c.payload, p) && c.signature@ == s.signature@
}

/// Adds the certifications that stand to the list. Returns what is wrong with the first one
/// that cannot be read.
fn add_standing(rows: &Vec<StoredCert>, wanted: &Vec<bool>, out: &mut Vec<Certification>) -> (r:
    Option<String>)
    requires
        wanted@.len() == rows@.len(),
    ensures
        opt_text(r) == first_fault(marked(rows@, wanted@)),
        r is None ==> ({
            let s = marked(rows@, wanted@).filter(stands());
            &&& final(out)@.len() == old(out)@.len() + s.len()
            &&& forall|i: int| 0 <= i < old(out)@.len() ==> final(out)@[i] == old(out)@[i]
            &&& forall|i: int|
                0 <= i < s.len() ==> is_stored(
                    #[trigger] final(out)@[old(out)@.len() + i],
                    s[i],
                )
        }),
{
    let ghost start = out@;
    let mut i: usize = 0;
    assert(rows@.take(0) =~= Seq::<StoredCert>::empty());
    reveal(Seq::filter);
    while i < rows.len()
        invariant
            wanted@.len() == rows@.len(),
            i <= rows@.len(),
            first_fault(marked(rows@.take(i as int), wanted@.take(i as int))) is None,
            out@.len() == start.len() + marked(
                rows@.take(i as int),
                wanted@.take(i as int),
            ).filter(stands()).len(),
            forall|k: int| 0 <= k < start.len() ==> out@[k] == start[k],
            forall|k: int|
                0 <= k < out@.len() - start.len() ==> is_stored(
                    #[trigger] out@[start.len() + k],
                    marked(rows@.take(i as int), wanted@.take(i as int)).filter(stands())[k],
                ),
        decreases rows@.len() - i,
    {
        let ghost so_far = marked(rows@.take(i as int), wanted@.take(i as int));
        proof {
            lemma_marked_step(rows@, wanted@, i as int);
            lemma_fault_push(so_far, rows@[i as int]);
            lemma_filter_push(so_far, rows@[i as int]);
        }
        if wanted[i] {
            match &rows[i].payload {
                Err(e) => {
                    proof {
                        lemma_fault_of_marked(rows@, wanted@, i as int + 1);
                    }
                    return Some(e.clone());
                },
                Ok(p) => {
                    if !same(p.standing.as_str(), "revoked") {
                        let ghost before = out@;
                        out.push(
                            Certification {
                                payload: copy_cert(p),
                                signature: rows[i].signature.clone(),
                            },
                        );
                        proof {
                            assert forall|k: int| 0 <= k < out@.len() - start.len() implies is_stored(
                                #[trigger] out@[start.len() + k],
                                so_far.push(rows@[i as int]).filter(stands())[k],
                            ) by {
                                if start.len() + k < before.len() {
                                    assert(out@[start.len() + k] == before[start.len() + k]);
                                }
                            }
                        }
                    }
                },
            }
        }
        i = i + 1;
    }
    assert(rows@.take(rows@.len() as int) =~= rows@);
    assert(wanted@.take(rows@.len() as int) =~= wanted@);
    None
}

/// The rows that are marked.
pub open spec fn marked(rows: Seq<StoredCert>, wanted: Seq<bool>) -> Seq<StoredCert>
    decreases rows.len(),
{
    if rows.len() == 0 {
        Seq::empty()
    } else {
        let rest = marked(rows.drop_last(), wanted.drop_last());
        if wanted.last() {
            rest.push(rows.last())
        } else {
            rest
        }
    }
}

proof fn lemma_marked_step(rows: Seq<StoredCert>, wanted: Seq<bool>, i: int)
    requires
        0 <= i < rows.len(),
        wanted.len() == rows.len(),
    ensures
        marked(rows.take(i + 1), wanted.take(i + 1)) == if wanted[i] {
            marked(rows.take(i), wanted.take(i)).push(rows[i])
        } else {
            marked(rows.take(i), wanted.take(i))
        },
{
    assert(rows.take(i + 1).drop_last() =~= rows.take(i));
    assert(wanted.take(i + 1).drop_last() =~= wanted.take(i));
}

proof fn lemma_fault_push(s: Seq<StoredCert>, x: StoredCert)
    ensures
        first_fault(s.push(x)) == match first_fault(s) {
            Some(f) => Some(f),
            None => match x.payload {
                Err(e) => Some(e@),
                Ok(_) => None::<Seq<char>>,
            },
        },
    decreases s.len(),
{
    if s.len() == 0 {
        assert(s.push(x).skip(1) =~= Seq::<StoredCert>::empty());
        assert(first_fault(s.push(x).skip(1)) is None);
    } else {
        assert(s.push(x)[0] == s[0]);
        assert(s.push(x).skip(1) =~= s.skip(1).push(x));
        lemma_fault_push(s.skip(1), x);
    }
}

proof fn lemma_filter_push(s: Seq<StoredCert>, x: StoredCert)
    ensures
        s.push(x).filter(stands()) == if stands()(x) {
            s.filter(stands()).push(x)
        } else {
            s.filter(stands())
        },
{
    reveal(Seq::filter);
    assert(s.push(x).drop_last() =~= s);
}

proof fn lemma_fault_of_marked(rows: Seq<StoredCert>, wanted: Seq<bool>, i: int)
    requires
        0 <= i <= rows.len(),
        wanted.len() == rows.len(),
        first_fault(marked(rows.take(i), wanted.take(i))) is Some,
    ensures
        first_fault(marked(rows, wanted)) == first_fault(marked(rows.take(i), wanted.take(i))),
    decreases rows.len() - i,
{
    if i == rows.len() {
        assert(rows.take(i) =~= rows);
        assert(wanted.take(i) =~= wanted);
    } else {
        lemma_marked_step(rows, wanted, i);
        lemma_fault_push(marked(rows.take(i), wanted.take(i)), rows[i]);
        lemma_fault_of_marked(rows, wanted, i + 1);
    }
}

/// Marks are those of a condition: the marked rows are the filtered ones.
proof fn lemma_marked_is_filter(
    rows: Seq<StoredCert>,
    wanted: Seq<bool>,
    p: spec_fn(StoredCert) -> bool,
)
    requires
        wanted.len() == rows.len(),
        forall|i: int| 0 <= i < rows.len() ==> #[trigger] wanted[i] == p(rows[i]),
    ensures
        marked(rows, wanted) == rows.filter(p),
    decreases rows.len(),
{
    reveal(Seq::filter);
    if rows.len() > 0 {
        assert forall|i: int| 0 <= i < rows.drop_last().len() implies #[trigger] wanted.drop_last()[i]
            == p(rows.drop_last()[i]) by {
            assert(wanted[i] == p(rows[i]));
        }
        lemma_marked_is_filter(rows.drop_last(), wanted.drop_last(), p);
        assert(wanted[rows.len() - 1] == p(rows[rows.len() - 1]));
    }
}

/// The certifications of a user that are still worth showing: those that this hub issued, then
/// those that the user brought. Where one cannot be read, that is the answer.
pub fn list_user_certs(
    issued: &Vec<StoredCert>,
    deposited: &Vec<StoredCert>,
    pubkey: &str,
    now: i64,
) -> (r: Result<Vec<Certification>, HubError>)
    ensures
        ({
            let own = issued@.filter(is_showable(pubkey@, now));
            let other = deposited@.filter(is_brought(pubkey@, now));
            match first_fault(own) {
                Some(f) => refused(r, hub_refusal(500, "Payload parse error: "@ + f)),
                None => match first_fault(other) {
                    Some(f) => refused(r, hub_refusal(500, "Payload parse error: "@ + f)),
                    None => {
                        let a = own.filter(stands());
                        let b = other.filter(stands());
                        r matches Ok(c) && c@.len() == a.len() + b.len() && (forall|i: int|
                            0 <= i < a.len() ==> is_stored(#[trigger] c@[i], a[i])) && (forall|
                            i: int,
                        |
                            0 <= i < b.len() ==> is_stored(#[trigger] c@[a.len() + i], b[i]))
                    },
                },
            }
        }),
{
    let mut out: Vec<Certification> = Vec::new();
    let mut own_marks: Vec<bool> = Vec::new();
    let mut i: usize = 0;
    while i < issued.len()
        invariant
            i <= issued@.len(),
            own_marks@.len() == i,
            forall|k: int|
                0 <= k < i ==> #[trigger] own_marks@[k] == is_showable(pubkey@, now)(issued@[k]),
        decreases issued@.len() - i,
    {
        let s = &issued[i];
        own_marks.push(
            same(s.subject_pubkey.as_str(), pubkey) && same(s.standing.as_str(), "good")
                && s.revoked_at.is_none() && s.expires_at > now,
        );
        i = i + 1;
    }
    let mut other_marks: Vec<bool> = Vec::new();
    let mut j: usize = 0;
    while j < deposited.len()
        invariant
            j <= deposited@.len(),
            other_marks@.len() == j,
            forall|k: int|
                0 <= k < j ==> #[trigger] other_marks@[k] == is_brought(pubkey@, now)(
                    deposited@[k],
                ),
        decreases deposited@.len() - j,
    {
        let s = &deposited[j];
        other_marks.push(same(s.subject_pubkey.as_str(), pubkey) && s.expires_at > now);
        j = j + 1;
    }
    proof {
        lemma_marked_is_filter(issued@, own_marks@, is_showable(pubkey@, now));
        lemma_marked_is_filter(deposited@, other_marks@, is_brought(pubkey@, now));
    }
    match add_standing(issued, &own_marks, &mut out) {
        Some(f) => return Err(refuse_text(500, concat2("Payload parse error: ", f.as_str()))),
        None => {},
    }
    let ghost first = out@;
    match add_standing(deposited, &other_marks, &mut out) {
        Some(f) => return Err(refuse_text(500, concat2("Payload parse error: ", f.as_str()))),
        None => {},
    }
    proof {
        let a = issued@.filter(is_showable(pubkey@, now)).filter(stands());
        assert(first.len() == a.len());
        assert forall|k: int| 0 <= k < a.len() implies is_stored(#[trigger] out@[k], a[k]) by {
            assert(out@[k] == first[k]);
            assert(is_stored(first[0 + k], a[k]));
        }
    }
    Ok(out)
}

/// The mode in which certifications are asked for; none where nothing was set.
pub fn load_cert_mode(setting: &Option<String>) -> (r: String)
    ensures
        r@ == match setting {
            Some(s) => s@,
            None => "none"@,
        },
{
    match setting {
        Some(s) => s.clone(),
        None => "none".to_owned(),
    }
}

/// Whether some trusted issuer has the key.
pub open spec fn trusts(issuers: Seq<TrustedIssuer>, key: Seq<char>) -> bool {
    exists|i: int| 0 <= i < issuers.len() && (#[trigger] issuers[i]).pubkey@ == key
}

fn is_trusted(issuers: &Vec<TrustedIssuer>, key: &str) -> (r: bool)
    ensures
        r == trusts(issuers@, key@),
{
    let mut i: usize = 0;
    while i < issuers.len()
        invariant
            i <= issuers@.len(),
            forall|k: int| 0 <= k < i ==> (#[trigger] issuers@[k]).pubkey@ != key@,
        decreases issuers@.len() - i,
    {
        if same(issuers[i].pubkey.as_str(), key) {
            return true;
        }
        i = i + 1;
    }
    false
}

/// Whether the certification says enough: enough work, and membership for long enough.
pub open spec fn meets(p: CertPayload, require: CertRequire, now: i64) -> bool {
    &&& match require.min_pow_level {
        Some(least) => p.pow_level matches Some(level) && level >= least,
        None => true,
    }
    &&& match require.min_member_since_days {
        Some(days) => p.member_since <= now - days * 86400,
        None => true,
    }
}

/// Whether the certification lets its bearer in: it is theirs, it has not run out, it is good,
/// it is signed by its issuer, it says enough, and by the mode any issuer will do, or only a
/// trusted one.
pub open spec fn admits(
    cert: Certification,
    signed: bool,
    master: Seq<char>,
    mode: Seq<char>,
    issuers: Seq<TrustedIssuer>,
    require: CertRequire,
    now: i64,
) -> bool {
    &&& cert.payload.subject_pubkey@ == master
    &&& now <= cert.payload.expires_at
    &&& cert.payload.standing@ == "good"@
    &&& hex_bytes(cert.signature@) is Some
    &&& signed
    &&& meets(cert.payload, require, now)
    &&& mode == "any"@ || (mode == "trusted"@ && trusts(issuers, cert.payload.issuer_pubkey@))
}

/// Whether the certification lets its bearer in, given whether its signature is that of its
/// issuer over its payload. What the issuer says of itself is not asked for.
pub fn certification_admits(
    cert: &Certification,
    signed: bool,
    auth_master_pubkey: &str,
    cert_mode: &str,
    trusted_issuers: &Vec<TrustedIssuer>,
    cert_require: &CertRequire,
    now: i64,
) -> (r: bool)
    ensures
        r == admits(
            *cert,
            signed,
            auth_master_pubkey@,
            cert_mode@,
            trusted_issuers@,
            *cert_require,
            now,
        ),
{
    let p = &cert.payload;
    if !same(p.subject_pubkey.as_str(), auth_master_pubkey) {
        return false;
    }
    if now > p.expires_at {
        return false;
    }
    if !same(p.standing.as_str(), "good") {
        return false;
    }
    if hex_decode(cert.signature.as_str()).is_none() || !signed {
        return false;
    }
    match cert_require.min_pow_level {
        Some(least) => match p.pow_level {
            Some(level) => {
                if level < least {
                    return false;
                }
            },
            None => return false,
        },
        None => {},
    }
    match cert_require.min_member_since_days {
        Some(days) => {
            let since: i128 = now as i128 - days as i128 * 86400;
            if p.member_since as i128 > since {
                return false;
            }
        },
        None => {},
    }
    if same(cert_mode, "any") {
        true
    } else if same(cert_mode, "trusted") {
        is_trusted(trusted_issuers, p.issuer_pubkey.as_str())
    } else {
        false
    }
}

/// Whether the issuer is who it says: this hub itself, or a hub that gives the same key in its
/// own description.
pub open spec fn is_confirmed(
    issuer: Seq<char>,
    our_pubkey: Seq<char>,
    described: Option<Seq<char>>,
) -> bool {
    issuer == our_pubkey || described == Some(issuer)
}

/// Holds a certification against the policy of the hub, given whether its signature is that of
/// its issuer over its payload, and the key that the issuer gives in its own description. Where
/// any issuer will do it must be confirmed.
pub fn verify_certification(
    cert: &Certification,
    signed: bool,
    our_pubkey: &str,
    described_key: &Option<String>,
    auth_master_pubkey: &str,
    cert_mode: &str,
    trusted_issuers: &Vec<TrustedIssuer>,
    cert_require: &CertRequire,
    now: i64,
) -> (r: bool)
    ensures
        r == (admits(
            *cert,
            signed,
            auth_master_pubkey@,
            cert_mode@,
            trusted_issuers@,
            *cert_require,
            now,
        ) && (cert_mode@ == "any"@ ==> is_confirmed(
            cert.payload.issuer_pubkey@,
            our_pubkey@,
            opt_text(*described_key),
        ))),
{
    if same(cert_mode, "any") {
        let issuer = cert.payload.issuer_pubkey.as_str();
        if !same(issuer, our_pubkey) && !is_text(described_key, issuer) {
            return false;
        }
    }
    certification_admits(
        cert,
        signed,
        auth_master_pubkey,
        cert_mode,
        trusted_issuers,
        cert_require,
        now,
    )
}

/// A certification that revokes lets no one in.
pub proof fn revoked_admits_no_one(
    cert: Certification,
    signed: bool,
    master: Seq<char>,
    mode: Seq<char>,
    issuers: Seq<TrustedIssuer>,
    require: CertRequire,
    now: i64,
)
    requires
        cert.payload.standing@ == "revoked"@,
    ensures
        !admits(cert, signed, master, mode, issuers, require, now),
{
    reveal_strlit("good");
    reveal_strlit("revoked");
    assert("good"@.len() != "revoked"@.len());
}

/// What a hub issued to a member lets that member into any hub that trusts it and asks no more,
/// until the day it ends.
pub proof fn issued_admits(
    cert: Certification,
    m: MemberStanding,
    issuer: Seq<char>,
    url: Option<Seq<char>>,
    subject: Seq<char>,
    issued_at: i64,
    expires_at: int,
    mode: Seq<char>,
    issuers: Seq<TrustedIssuer>,
    require: CertRequire,
    now: i64,
)
    requires
        vouches(cert.payload, m, issuer, url, subject, issued_at, expires_at),
        hex_bytes(cert.signature@) is Some,
        now <= expires_at,
        meets(cert.payload, require, now),
        mode == "any"@ || (mode == "trusted"@ && trusts(issuers, issuer)),
    ensures
        admits(cert, true, subject, mode, issuers, require, now),
{
}

/// After the certifications of a member were revoked, none that this hub issued is shown.
pub proof fn revocation_hides(
    before: Seq<IssuanceDbRow>,
    after: Seq<IssuanceDbRow>,
    subject: Seq<char>,
    now: i64,
    i: int,
)
    requires
        after.len() == before.len(),
        forall|k: int|
            0 <= k < before.len() ==> after_revocation(
                #[trigger] after[k],
                before[k],
                subject,
                now,
            ),
        0 <= i < after.len(),
        after[i].subject_pubkey@ == subject,
    ensures
        after[i].revoked_at is Some,
{
    assert(after_revocation(after[i], before[i], subject, now));
}

/// The hubs whose word counts, as the setting holds them; none where it is absent or cannot be
/// read.
pub fn load_trusted_issuers(stored: Option<Vec<TrustedIssuer>>) -> (r: Vec<TrustedIssuer>)
    ensures
        match stored {
            Some(v) => r == v,
            None => r@.len() == 0,
        },
{
    match stored {
        Some(v) => v,
        None => Vec::new(),
    }
}

/// What a certification must say beyond being good, as the setting holds it; nothing where it
/// is absent or cannot be read.
pub fn load_cert_require(stored: Option<CertRequire>) -> (r: CertRequire)
    ensures
        match stored {
            Some(q) => r == q,
            None => r.min_pow_level is None && r.min_member_since_days is None,
        },
{
    match stored {
        Some(q) => q,
        None => CertRequire { min_pow_level: None, min_member_since_days: None },
    }
}

/// What the hub asks of those who come; nothing where the mode is none.
pub fn load_cert_requirement(
    mode_setting: &Option<String>,
    trusted_issuers: Vec<TrustedIssuer>,
    require: CertRequire,
) -> (r: Option<CertRequirement>)
    ensures
        ({
            let mode = match mode_setting {
                Some(s) => s@,
                None => "none"@,
            };
            if mode == "none"@ {
                r is None
            } else {
                r matches Some(q) && q.mode@ == mode && q.trusted_issuers == trusted_issuers
                    && q.require == require
            }
        }),
{
    let mode = load_cert_mode(mode_setting);
    if same(mode.as_str(), "none") {
        None
    } else {
        Some(CertRequirement { mode, trusted_issuers, require })
    }
}

/// A setting and the value to store under it.
pub struct Setting {
    pub key: String,
    pub value: String,
}

/// The settings as plain texts.
pub open spec fn settings_view(s: Seq<Setting>) -> Seq<(Seq<char>, Seq<char>)> {
    s.map_values(|x: Setting| (x.key@, x.value@))
}

/// One setting where a value is given, none where not.
pub open spec fn given(key: Seq<char>, value: Option<String>) -> Seq<(Seq<char>, Seq<char>)> {
    match value {
        Some(v) => seq![(key, v@)],
        None => Seq::empty(),
    }
}

/// The settings that the change stores, in order.
pub open spec fn patched_settings(b: CertSettingsPatch) -> Seq<(Seq<char>, Seq<char>)> {
    given("cert_auto_issue"@, b.cert_auto_issue) + given(
        "cert_standing_days"@,
        b.cert_standing_days,
    ) + given("cert_validity_days"@, b.cert_validity_days) + given("cert_mode"@, b.cert_mode)
        + given("cert_min_pow_level"@, b.cert_min_pow_level) + given(
        "cert_trusted_issuers"@,
        b.cert_trusted_issuers,
    ) + given("cert_require"@, b.cert_require)
}

/// Whether the text is one of the modes.
pub open spec fn valid_mode(m: Seq<char>) -> bool {
    m == "none"@ || m == "any"@ || m == "trusted"@
}

fn push_given(out: &mut Vec<Setting>, key: &str, value: &Option<String>)
    ensures
        settings_view(final(out)@) == settings_view(old(out)@) + given(key@, *value),
{
    match value {
        Some(v) => {
            let ghost before = settings_view(out@);
            out.push(Setting { key: key.to_owned(), value: v.clone() });
            assert(settings_view(out@) =~= before + given(key@, *value));
        },
        None => {
            assert(settings_view(out@) =~= settings_view(out@) + given(key@, *value));
        },
    }
}

/// Changes the settings: what is to be stored, in order.
pub fn patch_cert_settings(perms: &UserPermissions, body: &CertSettingsPatch) -> (r: Result<
    Vec<Setting>,
    HubError,
>)
    ensures
        match perms.refusal(ADMIN@) {
            Some(d) => refused(r, d),
            None => if body.cert_mode is Some && !valid_mode(body.cert_mode->0@) {
                refused(
                    r,
                    hub_refusal(400, "cert_mode must be 'none', 'any', or 'trusted'"@),
                )
            } else {
                r matches Ok(s) && settings_view(s@) == patched_settings(*body)
            },
        },
{
    match perms.require(ADMIN) {
        Ok(_) => {},
        Err(e) => return Err(e),
    }
    match &body.cert_mode {
        Some(m) => {
            if !(same(m.as_str(), "none") || same(m.as_str(), "any") || same(
                m.as_str(),
                "trusted",
            )) {
                return Err(refuse(400, "cert_mode must be 'none', 'any', or 'trusted'"));
            }
        },
        None => {},
    }
    let mut out: Vec<Setting> = Vec::new();
    assert(settings_view(out@) =~= Seq::empty());
    push_given(&mut out, "cert_auto_issue", &body.cert_auto_issue);
    push_given(&mut out, "cert_standing_days", &body.cert_standing_days);
    push_given(&mut out, "cert_validity_days", &body.cert_validity_days);
    push_given(&mut out, "cert_mode", &body.cert_mode);
    push_given(&mut out, "cert_min_pow_level", &body.cert_min_pow_level);
    push_given(&mut out, "cert_trusted_issuers", &body.cert_trusted_issuers);
    push_given(&mut out, "cert_require", &body.cert_require);
    assert(settings_view(out@) =~= patched_settings(*body));
    Ok(out)
}

/// Whether the row is shown with the payload that was read, or with one made up of what the
/// ledger knows.
pub open spec fn issuance_shows(
    s: IssuanceRow,
    r: IssuanceDbRow,
    payload: Option<CertPayload>,
) -> bool {
    &&& s.id == r.id
    &&& s.subject_pubkey == r.subject_pubkey
    &&& s.pow_level == match r.pow_level {
        Some(n) => Some(n as u8),
        None => None::<u8>,
    }
    &&& s.member_since == r.member_since
    &&& s.issued_at == r.issued_at
    &&& s.expires_at == r.expires_at
    &&& s.revoked_at == r.revoked_at
    &&& s.standing == r.standing
    &&& match payload {
        Some(p) => s.payload == p,
        None => {
            &&& s.payload.subject_kind@ == "user"@
            &&& s.payload.issuer_pubkey@.len() == 0
            &&& s.payload.issuer_url@.len() == 0
            &&& s.payload.subject_pubkey == r.subject_pubkey
            &&& s.payload.member_since == r.member_since
            &&& s.payload.standing == r.standing
            &&& s.payload.pow_level == s.pow_level
            &&& s.payload.issued_at == r.issued_at
            &&& s.payload.expires_at == r.expires_at
            &&& s.payload.capabilities@.len() == 0
        },
    }
}

/// A row of the ledger as the admin sees it, given its payload where it could be read.
pub fn issuance_row(r: IssuanceDbRow, payload: Option<CertPayload>) -> (s: IssuanceRow)
    ensures
        issuance_shows(s, r, payload),
{
    let pow_level: Option<u8> = match r.pow_level {
        Some(n) => Some(n as u8),
        None => None,
    };
    let payload = match payload {
        Some(p) => p,
        None => CertPayload {
            subject_kind: "user".to_owned(),
            issuer_pubkey: String::new(),
            issuer_url: String::new(),
            subject_pubkey: r.subject_pubkey.clone(),
            member_since: r.member_since,
            standing: r.standing.clone(),
            pow_level,
            issued_at: r.issued_at,
            expires_at: r.expires_at,
            capabilities: Vec::new(),
        },
    };
    IssuanceRow {
        id: r.id,
        subject_pubkey: r.subject_pubkey,
        pow_level,
        member_since: r.member_since,
        issued_at: r.issued_at,
        expires_at: r.expires_at,
        revoked_at: r.revoked_at,
        standing: r.standing,
        payload,
    }
}

/// Issues a certification on the word of an admin: what the hub says; it is then signed.
pub fn admin_issue(
    perms: &UserPermissions,
    member: &Option<MemberStanding>,
    banned: bool,
    validity_setting: &Option<String>,
    our_pubkey: &str,
    hub_url: &Option<String>,
    subject_pubkey: &str,
    now: i64,
) -> (r: Result<CertPayload, HubError>)
    requires
        expiry_fits(opt_text(*validity_setting), now),
    ensures
        match perms.refusal(ADMIN@) {
            Some(d) => refused(r, d),
            None => match issue_refusal(*member, banned) {
                Some(d) => refused(r, d),
                None => r matches Ok(p) && vouches(
                    p,
                    member->0,
                    our_pubkey@,
                    opt_text(*hub_url),
                    subject_pubkey@,
                    now,
                    expiry_of(opt_text(*validity_setting), now),
                ),
            },
        },
{
    match perms.require(ADMIN) {
        Ok(_) => issue_cert_for(
            member,
            banned,
            validity_setting,
            our_pubkey,
            hub_url,
            subject_pubkey,
            now,
        ),
        Err(e) => Err(e),
    }
}

/// Revokes the certifications of a member on the word of an admin. Of a member who is known,
/// one that says so is to be signed.
pub fn admin_revoke(
    perms: &UserPermissions,
    ledger: &mut Vec<IssuanceDbRow>,
    first_seen_at: Option<i64>,
    our_pubkey: &str,
    hub_url: &Option<String>,
    subject_pubkey: &str,
    now: i64,
) -> (r: Result<Option<CertPayload>, HubError>)
    requires
        now <= i64::MAX - 86400,
    ensures
        match perms.refusal(ADMIN@) {
            Some(d) => refused(r, d) && final(ledger)@ == old(ledger)@,
            None => {
                &&& final(ledger)@.len() == old(ledger)@.len()
                &&& forall|i: int|
                    0 <= i < old(ledger)@.len() ==> after_revocation(
                        #[trigger] final(ledger)@[i],
                        old(ledger)@[i],
                        subject_pubkey@,
                        now,
                    )
                &&& match first_seen_at {
                    None => r matches Ok(x) && x is None,
                    Some(t) => r matches Ok(Some(p)) && denounces(
                        p,
                        t,
                        our_pubkey@,
                        opt_text(*hub_url),
                        subject_pubkey@,
                        now,
                    ),
                }
            },
        },
{
    match perms.require(ADMIN) {
        Ok(_) => Ok(
            revoke_cert_for(ledger, first_seen_at, our_pubkey, hub_url, subject_pubkey, now),
        ),
        Err(e) => Err(e),
    }
}

/// A row of the ledger with its payload, where the text of the payload could be read.
pub struct LedgerEntry {
    pub row: IssuanceDbRow,
    pub payload: Option<CertPayload>,
}

/// The ledger as the admin sees it, in the order in which it stands.
pub fn admin_list(perms: &UserPermissions, ledger: Vec<LedgerEntry>) -> (r: Result<
    Vec<IssuanceRow>,
    HubError,
>)
    ensures
        match perms.refusal(ADMIN@) {
            Some(d) => refused(r, d),
            None => r matches Ok(v) && v@.len() == ledger@.len() && (forall|i: int|
                0 <= i < ledger@.len() ==> issuance_shows(
                    #[trigger] v@[i],
                    ledger@[i].row,
                    ledger@[i].payload,
                )),
        },
{
    match perms.require(ADMIN) {
        Ok(_) => {},
        Err(e) => return Err(e),
    }
    let ghost all = ledger@;
    let mut out: Vec<IssuanceRow> = Vec::new();
    let mut rest = ledger;
    while rest.len() > 0
        invariant
            rest@.len() + out@.len() == all.len(),
            forall|i: int| 0 <= i < rest@.len() ==> rest@[i] == all[i],
            forall|i: int|
                0 <= i < out@.len() ==> issuance_shows(
                    #[trigger] out@[i],
                    all[all.len() - 1 - i].row,
                    all[all.len() - 1 - i].payload,
                ),
        decreases rest@.len(),
    {
        match rest.pop() {
            Some(e) => out.push(issuance_row(e.row, e.payload)),
            None => {},
        }
    }
    let mut shown: Vec<IssuanceRow> = Vec::new();
    while out.len() > 0
        invariant
            shown@.len() + out@.len() == all.len(),
            forall|i: int|
                0 <= i < out@.len() ==> issuance_shows(
                    #[trigger] out@[i],
                    all[all.len() - 1 - i].row,
                    all[all.len() - 1 - i].payload,
                ),
            forall|i: int|
                0 <= i < shown@.len() ==> issuance_shows(
                    #[trigger] shown@[i],
                    all[i].row,
                    all[i].payload,
                ),
        decreases out@.len(),
    {
        match out.pop() {
            Some(x) => shown.push(x),
            None => {},
        }
    }
    Ok(shown)
}

/// What someone is shown of their certifications is theirs: every one comes from a row of the
/// store whose subject is the key asked for, which has not run out and does not revoke; one that
/// this hub issued is moreover good and not revoked.
pub proof fn shown_certifications_are_the_users(
    issued: &Vec<StoredCert>,
    deposited: &Vec<StoredCert>,
    pubkey: &str,
    now: i64,
    r: Result<Vec<Certification>, HubError>,
    k: int,
)
    requires
        call_ensures(list_user_certs, (issued, deposited, pubkey, now), r),
        r is Ok,
        0 <= k < r->Ok_0@.len(),
    ensures
        exists|s: StoredCert|
            (issued@.contains(s) || deposited@.contains(s)) && #[trigger] s.subject_pubkey@
                == pubkey@ && s.expires_at > now && (!deposited@.contains(s) ==> s.standing@
                == "good"@ && s.revoked_at is None) && (s.payload matches Ok(p) && p.standing@
                != "revoked"@ && p.subject_pubkey == r->Ok_0@[k].payload.subject_pubkey
                && p.issuer_pubkey == r->Ok_0@[k].payload.issuer_pubkey && p.expires_at
                == r->Ok_0@[k].payload.expires_at && p.standing == r->Ok_0@[k].payload.standing
                && p.issued_at == r->Ok_0@[k].payload.issued_at && p.subject_kind
                == r->Ok_0@[k].payload.subject_kind && p.issuer_url
                == r->Ok_0@[k].payload.issuer_url && p.capabilities@
                == r->Ok_0@[k].payload.capabilities@ && p.member_since
                == r->Ok_0@[k].payload.member_since && p.pow_level
                == r->Ok_0@[k].payload.pow_level && s.signature@ == r->Ok_0@[k].signature@),
{
    let own = issued@.filter(is_showable(pubkey@, now));
    let other = deposited@.filter(is_brought(pubkey@, now));
    let a = own.filter(stands());
    let b = other.filter(stands());
    let s = if k < a.len() {
        a[k]
    } else {
        b[k - a.len()]
    };
    if k < a.len() {
        assert(a.contains(s));
        lemma_kept(own, stands(), s);
        lemma_kept(issued@, is_showable(pubkey@, now), s);
    } else {
        assert(b.contains(s));
        lemma_kept(other, stands(), s);
        lemma_kept(deposited@, is_brought(pubkey@, now), s);
        assert(r->Ok_0@[a.len() + (k - a.len())] == r->Ok_0@[k]);
    }
    assert(is_stored(r->Ok_0@[k], s));
    assert(s.subject_pubkey@ == pubkey@);
}

/// Whether the list holds the certification of the row, as it was stored.
pub open spec fn holds_certification(list: Seq<Certification>, s: StoredCert) -> bool {
    exists|k: int|
        0 <= k < list.len() && (#[trigger] list[k]).signature@ == s.signature@ && s.payload is Ok
            && list[k].payload.subject_pubkey == s.payload->Ok_0.subject_pubkey
            && list[k].payload.issuer_pubkey == s.payload->Ok_0.issuer_pubkey
            && list[k].payload.expires_at == s.payload->Ok_0.expires_at
            && list[k].payload.standing == s.payload->Ok_0.standing
}

/// Nothing that someone may show is kept from them: every certification that they brought and
/// that has not run out, and every good one that this hub issued to them, is in the list, unless
/// it is one that revokes.
pub proof fn no_certification_is_kept_back(
    issued: &Vec<StoredCert>,
    deposited: &Vec<StoredCert>,
    pubkey: &str,
    now: i64,
    r: Result<Vec<Certification>, HubError>,
    s: StoredCert,
)
    requires
        call_ensures(list_user_certs, (issued, deposited, pubkey, now), r),
        r is Ok,
        s.subject_pubkey@ == pubkey@,
        s.expires_at > now,
        deposited@.contains(s) || (issued@.contains(s) && s.standing@ == "good"@ && s.revoked_at
            is None),
    ensures
        s.payload is Ok,
        s.payload->Ok_0.standing@ != "revoked"@ ==> holds_certification(r->Ok_0@, s),
{
    let own = issued@.filter(is_showable(pubkey@, now));
    let other = deposited@.filter(is_brought(pubkey@, now));
    let a = own.filter(stands());
    let b = other.filter(stands());
    if deposited@.contains(s) {
        lemma_kept(deposited@, is_brought(pubkey@, now), s);
        let i: int = choose|i: int| 0 <= i < other.len() && other[i] == s;
        lemma_no_fault(other, i);
        if s.payload->Ok_0.standing@ != "revoked"@ {
            lemma_kept(other, stands(), s);
            let j: int = choose|j: int| 0 <= j < b.len() && b[j] == s;
            assert(is_stored(r->Ok_0@[a.len() + j], s));
        }
    } else {
        lemma_kept(issued@, is_showable(pubkey@, now), s);
        let i: int = choose|i: int| 0 <= i < own.len() && own[i] == s;
        lemma_no_fault(own, i);
        if s.payload->Ok_0.standing@ != "revoked"@ {
            lemma_kept(own, stands(), s);
            let j: int = choose|j: int| 0 <= j < a.len() && a[j] == s;
            assert(is_stored(r->Ok_0@[j], s));
        }
    }
}

/// Where nothing is wrong with any text, every one can be read.
proof fn lemma_no_fault(s: Seq<StoredCert>, i: int)
    requires
        first_fault(s) is None,
        0 <= i < s.len(),
    ensures
        s[i].payload is Ok,
    decreases s.len(),
{
    if i > 0 {
        lemma_no_fault(s.skip(1), i - 1);
        assert(s.skip(1)[i - 1] == s[i]);
    }
}

/// Where everything of the user can be read they get an answer.
pub proof fn readable_certifications_are_answered(
    issued: &Vec<StoredCert>,
    deposited: &Vec<StoredCert>,
    pubkey: &str,
    now: i64,
    r: Result<Vec<Certification>, HubError>,
)
    requires
        call_ensures(list_user_certs, (issued, deposited, pubkey, now), r),
        forall|i: int|
            0 <= i < issued@.len() && (#[trigger] issued@[i]).subject_pubkey@ == pubkey@
                ==> issued@[i].payload is Ok,
        forall|i: int|
            0 <= i < deposited@.len() && (#[trigger] deposited@[i]).subject_pubkey@ == pubkey@
                ==> deposited@[i].payload is Ok,
    ensures
        r is Ok,
{
    let own = issued@.filter(is_showable(pubkey@, now));
    let other = deposited@.filter(is_brought(pubkey@, now));
    assert forall|i: int| 0 <= i < own.len() implies (#[trigger] own[i]).payload is Ok by {
        assert(own.contains(own[i]));
        lemma_kept(issued@, is_showable(pubkey@, now), own[i]);
    }
    assert forall|i: int| 0 <= i < other.len() implies (#[trigger] other[i]).payload is Ok by {
        assert(other.contains(other[i]));
        lemma_kept(deposited@, is_brought(pubkey@, now), other[i]);
    }
    lemma_all_readable(own);
    lemma_all_readable(other);
}

proof fn lemma_all_readable(s: Seq<StoredCert>)
    requires
        forall|i: int| 0 <= i < s.len() ==> (#[trigger] s[i]).payload is Ok,
    ensures
        first_fault(s) is None,
    decreases s.len(),
{
    if s.len() > 0 {
        assert forall|i: int| 0 <= i < s.skip(1).len() implies (#[trigger] s.skip(1)[i]).payload
            is Ok by {
            assert(s.skip(1)[i] == s[i + 1]);
        }
        lemma_all_readable(s.skip(1));
    }
}

/// A certification lets its bearer in exactly where it is about them, has not run out, is good,
/// is signed, says as much as is asked for, and comes from an issuer that will do.
pub proof fn a_certification_admits_its_bearer(
    cert: &Certification,
    signed: bool,
    bearer: &str,
    mode: &str,
    issuers: &Vec<TrustedIssuer>,
    require: &CertRequire,
    now: i64,
    r: bool,
)
    requires
        call_ensures(
            certification_admits,
            (cert, signed, bearer, mode, issuers, require, now),
            r,
        ),
    ensures
        r ==> signed && cert.payload.subject_pubkey@ == bearer@ && cert.payload.expires_at >= now
            && cert.payload.standing@ == "good"@ && hex_bytes(cert.signature@) is Some,
        r ==> (require.min_pow_level matches Some(least) ==> cert.payload.pow_level is Some
            && cert.payload.pow_level->0 >= least),
        r ==> (require.min_member_since_days matches Some(days) ==> now - cert.payload.member_since
            >= days * 86400),
        r && mode@ != "any"@ ==> mode@ == "trusted"@ && exists|i: int|
            0 <= i < issuers@.len() && (#[trigger] issuers@[i]).pubkey@
                == cert.payload.issuer_pubkey@,
        signed && hex_bytes(cert.signature@) is Some && cert.payload.subject_pubkey@ == bearer@
            && cert.payload.expires_at >= now && cert.payload.standing@ == "good"@
            && require.min_pow_level is None && require.min_member_since_days is None && (mode@
            == "any"@ || (mode@ == "trusted"@ && exists|i: int|
            0 <= i < issuers@.len() && (#[trigger] issuers@[i]).pubkey@
                == cert.payload.issuer_pubkey@)) ==> r,
        signed && hex_bytes(cert.signature@) is Some && cert.payload.subject_pubkey@ == bearer@
            && cert.payload.expires_at >= now && cert.payload.standing@ == "good"@
            && require.min_pow_level is Some && cert.payload.pow_level is Some
            && cert.payload.pow_level->0 >= require.min_pow_level->0
            && require.min_member_since_days is Some && now - cert.payload.member_since
            >= require.min_member_since_days->0 * 86400 && mode@ == "any"@ ==> r,
{
}

/// Where any issuer will do, a certification counts only if its issuer is this hub or one that
/// gives the same key of itself; where only trusted issuers will do, no such word is asked for.
pub proof fn any_issuer_must_be_confirmed(
    cert: &Certification,
    signed: bool,
    our_pubkey: &str,
    described: &Option<String>,
    bearer: &str,
    mode: &str,
    issuers: &Vec<TrustedIssuer>,
    require: &CertRequire,
    now: i64,
    r: bool,
    admitted: bool,
)
    requires
        call_ensures(
            verify_certification,
            (cert, signed, our_pubkey, described, bearer, mode, issuers, require, now),
            r,
        ),
        call_ensures(
            certification_admits,
            (cert, signed, bearer, mode, issuers, require, now),
            admitted,
        ),
    ensures
        r ==> admitted,
        mode@ != "any"@ ==> r == admitted,
        admitted && cert.payload.issuer_pubkey@ == our_pubkey@ ==> r,
        admitted && described is Some && described->0@ == cert.payload.issuer_pubkey@ ==> r,
        r && mode@ == "any"@ && cert.payload.issuer_pubkey@ != our_pubkey@ ==> described is Some
            && described->0@ == cert.payload.issuer_pubkey@,
{
}

/// Only a member who is approved and not banned gets a certification. It says of them that they
/// are good, since when they are a member and the work that they have shown, from now until the
/// days of the setting are over.
pub proof fn a_member_in_good_standing_is_certified(
    member: &Option<MemberStanding>,
    banned: bool,
    validity: &Option<String>,
    our_pubkey: &str,
    hub_url: &Option<String>,
    subject: &str,
    now: i64,
    r: Result<CertPayload, HubError>,
)
    requires
        call_ensures(
            issue_cert_for,
            (member, banned, validity, our_pubkey, hub_url, subject, now),
            r,
        ),
        expiry_fits(opt_text(*validity), now),
    ensures
        r is Ok <==> member is Some && member->0.approval_status@ == "approved"@ && !banned,
        member is None ==> r->Err_0.status == 404,
        r is Err && member is Some ==> r->Err_0.status == 403,
        r matches Ok(p) ==> p.subject_pubkey@ == subject@ && p.issuer_pubkey@ == our_pubkey@
            && p.standing@ == "good"@ && p.subject_kind@ == "user"@ && p.issued_at == now
            && p.member_since == member->0.first_seen_at,
        r matches Ok(p) ==> (hub_url matches Some(u) ==> p.issuer_url@ == u@) && (hub_url is None
            ==> p.issuer_url@.len() == 0),
        r matches Ok(p) ==> (validity is None ==> p.expires_at - now == 90 * 86400),
        r matches Ok(p) ==> (validity matches Some(v) ==> match signed_value(v@) {
            Some(days) => p.expires_at - now == days * 86400,
            None => p.expires_at - now == 90 * 86400,
        }),
        r matches Ok(p) ==> (member->0.pow_level matches Some(n) ==> (n <= 0 ==> p.pow_level
            is None) && (0 < n <= 255 ==> p.pow_level is Some && p.pow_level->0 == n)),
        r matches Ok(p) ==> (member->0.pow_level is None ==> p.pow_level is None),
        r matches Ok(p) ==> p.capabilities@.len() == 0,
{
}

/// On the word of an admin a member is certified as they are by themself, and on the word of no
/// one else.
pub proof fn an_admin_certifies_members(
    perms: &UserPermissions,
    member: &Option<MemberStanding>,
    banned: bool,
    validity: &Option<String>,
    our_pubkey: &str,
    hub_url: &Option<String>,
    subject: &str,
    now: i64,
    r: Result<CertPayload, HubError>,
)
    requires
        call_ensures(
            admin_issue,
            (perms, member, banned, validity, our_pubkey, hub_url, subject, now),
            r,
        ),
        expiry_fits(opt_text(*validity), now),
    ensures
        r is Ok <==> perms.granted().contains("admin"@) && member is Some
            && member->0.approval_status@ == "approved"@ && !banned,
        !perms.granted().contains("admin"@) ==> r->Err_0.status == 403,
        r matches Ok(p) ==> p.subject_pubkey@ == subject@ && p.issuer_pubkey@ == our_pubkey@
            && p.standing@ == "good"@ && p.issued_at == now,
{
}

/// Revoking ends every certification of the member in the ledger that was not revoked yet, as of
/// now, and touches no row of anyone else. Of a member who is known it says so, for a day.
pub proof fn revoking_ends_what_the_member_had(
    ledger: &mut Vec<IssuanceDbRow>,
    first_seen_at: Option<i64>,
    our_pubkey: &str,
    hub_url: &Option<String>,
    subject: &str,
    now: i64,
    r: Option<CertPayload>,
    i: int,
)
    requires
        call_ensures(
            revoke_cert_for,
            (ledger, first_seen_at, our_pubkey, hub_url, subject, now),
            r,
        ),
        now <= i64::MAX - 86400,
        0 <= i < old(ledger)@.len(),
    ensures
        final(ledger)@.len() == old(ledger)@.len(),
        final(ledger)@[i].id == old(ledger)@[i].id,
        old(ledger)@[i].subject_pubkey@ != subject@ ==> final(ledger)@[i] == old(ledger)@[i],
        old(ledger)@[i].subject_pubkey@ == subject@ ==> final(ledger)@[i].revoked_at is Some,
        old(ledger)@[i].subject_pubkey@ == subject@ && old(ledger)@[i].revoked_at is None ==> final(ledger)@[i].revoked_at == Some(now) && final(ledger)@[i].standing@ == "revoked"@,
        old(ledger)@[i].revoked_at is Some ==> final(ledger)@[i] == old(ledger)@[i],
        r is Some <==> first_seen_at is Some,
        r matches Some(p) ==> p.standing@ == "revoked"@ && p.subject_pubkey@ == subject@
            && p.issuer_pubkey@ == our_pubkey@ && p.issued_at == now && p.expires_at - now == 86400
            && p.pow_level is None && Some(p.member_since) == first_seen_at && p.subject_kind@
            == "user"@ && p.capabilities@.len() == 0 && (hub_url matches Some(u) ==> p.issuer_url@
            == u@) && (hub_url is None ==> p.issuer_url@.len() == 0),
{
}

/// Only an admin revokes; anyone else is refused and the ledger stays as it is.
pub proof fn only_an_admin_revokes(
    perms: &UserPermissions,
    ledger: &mut Vec<IssuanceDbRow>,
    first_seen_at: Option<i64>,
    our_pubkey: &str,
    hub_url: &Option<String>,
    subject: &str,
    now: i64,
    r: Result<Option<CertPayload>, HubError>,
    i: int,
)
    requires
        call_ensures(
            admin_revoke,
            (perms, ledger, first_seen_at, our_pubkey, hub_url, subject, now),
            r,
        ),
        now <= i64::MAX - 86400,
        0 <= i < old(ledger)@.len(),
    ensures
        r is Ok <==> perms.granted().contains("admin"@),
        r is Err ==> r->Err_0.status == 403 && final(ledger)@ == old(ledger)@,
        r is Ok && old(ledger)@[i].subject_pubkey@ == subject@ ==> final(ledger)@[i].revoked_at
            is Some,
        old(ledger)@[i].subject_pubkey@ != subject@ ==> final(ledger)@[i] == old(ledger)@[i],
        r matches Ok(x) ==> (x is Some <==> first_seen_at is Some) && (x matches Some(p)
            ==> p.standing@ == "revoked"@ && p.subject_pubkey@ == subject@),
{
}

/// What was issued is recorded as it was signed; only what revokes is recorded as revoked.
pub proof fn the_ledger_records_what_was_signed(
    p: &CertPayload,
    id: &str,
    payload_json: &str,
    signature: &str,
    row: IssuanceDbRow,
)
    requires
        call_ensures(record_issuance, (p, id, payload_json, signature), row),
    ensures
        row.id@ == id@,
        row.subject_pubkey@ == p.subject_pubkey@,
        row.issued_at == p.issued_at,
        row.expires_at == p.expires_at,
        row.member_since == p.member_since,
        row.standing@ == p.standing@,
        row.payload_json@ == payload_json@,
        row.signature@ == signature@,
        row.pow_level is Some <==> p.pow_level is Some,
        row.pow_level matches Some(n) ==> n == p.pow_level->0,
        p.standing@ == "good"@ ==> row.revoked_at is None,
        p.standing@ == "revoked"@ ==> row.revoked_at == Some(p.issued_at),
{
    reveal_strlit("good");
    reveal_strlit("revoked");
    assert("good"@.len() != "revoked"@.len());
}

/// The signature of a certification is held against the key of its issuer and its payload.
pub proof fn certifications_are_held_against_their_issuer(
    cert: &Certification,
    payload_json: &str,
    c: Option<SignatureClaim>,
)
    requires
        call_ensures(certification_claim, (cert, payload_json), c),
    ensures
        c is Some <==> hex_bytes(cert.signature@) is Some,
        c matches Some(x) ==> x.key@ == cert.payload.issuer_pubkey@ && x.message@ == encode_utf8(
            payload_json@,
        ) && Some(x.signature@) == hex_bytes(cert.signature@),
{
}

/// The settings are changed by admins only, the mode only to one of the three, and a change of
/// one setting stores that one and no other.
pub proof fn settings_store_what_was_given(
    perms: &UserPermissions,
    body: &CertSettingsPatch,
    r: Result<Vec<Setting>, HubError>,
    i: int,
)
    requires
        call_ensures(patch_cert_settings, (perms, body), r),
    ensures
        r is Ok <==> perms.granted().contains("admin"@) && (body.cert_mode matches Some(m) ==> m@
            == "none"@ || m@ == "any"@ || m@ == "trusted"@),
        r is Err ==> r->Err_0.status == if perms.granted().contains("admin"@) {
            400int
        } else {
            403
        },
        r matches Ok(s) ==> s@.len() == (if body.cert_auto_issue is Some {
            1int
        } else {
            0
        }) + (if body.cert_standing_days is Some {
            1int
        } else {
            0
        }) + (if body.cert_validity_days is Some {
            1int
        } else {
            0
        }) + (if body.cert_mode is Some {
            1int
        } else {
            0
        }) + (if body.cert_min_pow_level is Some {
            1int
        } else {
            0
        }) + (if body.cert_trusted_issuers is Some {
            1int
        } else {
            0
        }) + (if body.cert_require is Some {
            1int
        } else {
            0
        }),
        r is Ok && 0 <= i < r->Ok_0@.len() ==> ({
            let s = r->Ok_0@[i];
            ||| s.key@ == "cert_auto_issue"@ && opt_text(body.cert_auto_issue) == Some(s.value@)
            ||| s.key@ == "cert_standing_days"@ && opt_text(body.cert_standing_days) == Some(
                s.value@,
            )
            ||| s.key@ == "cert_validity_days"@ && opt_text(body.cert_validity_days) == Some(
                s.value@,
            )
            ||| s.key@ == "cert_mode"@ && opt_text(body.cert_mode) == Some(s.value@)
            ||| s.key@ == "cert_min_pow_level"@ && opt_text(body.cert_min_pow_level) == Some(
                s.value@,
            )
            ||| s.key@ == "cert_trusted_issuers"@ && opt_text(body.cert_trusted_issuers) == Some(
                s.value@,
            )
            ||| s.key@ == "cert_require"@ && opt_text(body.cert_require) == Some(s.value@)
        }),
{
    if r is Ok {
        assert(settings_view(r->Ok_0@).len() == r->Ok_0@.len());
        if 0 <= i < r->Ok_0@.len() {
            assert(settings_view(r->Ok_0@)[i] == (r->Ok_0@[i].key@, r->Ok_0@[i].value@));
        }
    }
}

/// What the hub says that it asks for is what it asks for: nothing where the mode is none or
/// nothing was set.
pub proof fn what_is_asked_for_is_told(
    mode: &Option<String>,
    issuers: Vec<TrustedIssuer>,
    require: CertRequire,
    r: Option<CertRequirement>,
)
    requires
        call_ensures(load_cert_requirement, (mode, issuers, require), r),
    ensures
        r is Some <==> mode is Some && mode->0@ != "none"@,
        r matches Some(q) ==> q.mode@ == mode->0@ && q.trusted_issuers == issuers && q.require
            == require,
{
}

/// The ledger is shown to admins only, row by row, with what each row says.
pub proof fn the_ledger_is_shown_to_admins(
    perms: &UserPermissions,
    ledger: Vec<LedgerEntry>,
    r: Result<Vec<IssuanceRow>, HubError>,
    i: int,
)
    requires
        call_ensures(admin_list, (perms, ledger), r),
    ensures
        r is Ok <==> perms.granted().contains("admin"@),
        r is Err ==> r->Err_0.status == 403,
        r matches Ok(v) ==> v@.len() == ledger@.len(),
        r is Ok && 0 <= i < ledger@.len() ==> ({
            let s = r->Ok_0@[i];
            &&& s.id@ == ledger@[i].row.id@
            &&& s.subject_pubkey@ == ledger@[i].row.subject_pubkey@
            &&& s.expires_at == ledger@[i].row.expires_at
            &&& s.issued_at == ledger@[i].row.issued_at
            &&& s.revoked_at == ledger@[i].row.revoked_at
            &&& s.standing@ == ledger@[i].row.standing@
            &&& s.payload.subject_pubkey@ == match ledger@[i].payload {
                Some(p) => p.subject_pubkey@,
                None => ledger@[i].row.subject_pubkey@,
            }
            &&& ledger@[i].payload is None ==> s.payload.standing@ == ledger@[i].row.standing@
                && s.payload.expires_at == ledger@[i].row.expires_at && s.payload.issued_at
                == ledger@[i].row.issued_at && s.payload.member_since == ledger@[i].row.member_since
                && s.payload.issuer_pubkey@.len() == 0 && s.payload.issuer_url@.len() == 0
                && s.payload.subject_kind@ == "user"@ && s.payload.capabilities@.len() == 0
                && s.payload.pow_level == s.pow_level
            &&& ledger@[i].payload matches Some(p) ==> s.payload == p
            &&& s.member_since == ledger@[i].row.member_since
            &&& s.pow_level is Some <==> ledger@[i].row.pow_level is Some
            &&& ledger@[i].row.pow_level matches Some(n) ==> (0 <= n <= 255 ==> s.pow_level->0 == n)
        }),
{
}

/// What a setting says is what counts: a number that can be read, a mode, issuers and
/// requirements that were stored; else the default, no certifications and nothing asked for.
pub proof fn settings_count_as_stored(
    number: &Option<String>,
    usual: i64,
    n: i64,
    mode: String,
    issuers: Option<Vec<TrustedIssuer>>,
    i: Vec<TrustedIssuer>,
    require: Option<CertRequire>,
    q: CertRequire,
)
    requires
        call_ensures(setting_i64, (number, usual), n),
        call_ensures(load_cert_mode, (number,), mode),
        call_ensures(load_trusted_issuers, (issuers,), i),
        call_ensures(load_cert_require, (require,), q),
    ensures
        number is None ==> n == usual && mode@ == "none"@,
        number matches Some(s) ==> mode@ == s@ && match signed_value(s@) {
            Some(k) => n == k,
            None => n == usual,
        },
        issuers is Some ==> Some(i) == issuers,
        issuers is None ==> i@.len() == 0,
        require is Some ==> Some(q) == require,
        require is None ==> q.min_pow_level is None && q.min_member_since_days is None,
{
}

/// The end of a certification can be written down exactly where so many days from now fit into
/// the numbers.
pub proof fn the_end_must_fit(validity: &Option<String>, now: i64, r: bool, days: i64)
    requires
        call_ensures(check_expiry, (validity, now), r),
        call_ensures(setting_i64, (validity, 90), days),
    ensures
        r <==> i64::MIN <= days * 86400 <= i64::MAX && i64::MIN <= now + days * 86400 <= i64::MAX,
{
}

} // verus!
