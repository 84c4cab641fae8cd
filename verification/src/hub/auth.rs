//! Who someone is, and whether they are let in.
use vstd::prelude::*;
use crate::codec::{hex_bytes, hex_decode, hex_encode, hex_round_trip, hex_text};
use crate::entropy::random_bytes;
use crate::hub::bots::{
    commands_replaced, profile_row, profile_saved, replaced_commands, BotCommandRow, BotMeta,
    BotProfileRow,
};
use crate::hub::certs::{
    admits, certification_admits, load_cert_mode, CertRequire, Certification, TrustedIssuer,
};
use crate::hub::moderation::{banned, is_banned, BanResponse};
use crate::hub::state::PendingChallenge;
use crate::hub::{
    claim_over, hub_refusal, is_claim, refuse, refuse_text, refused, HubError, HubRefusal,
    SignatureClaim,
};
use crate::number::{parse_unsigned, unsigned_value};
use crate::rows::{find_row, first_match, lemma_match_holds};
use crate::table::Table;
use crate::text::{concat2, concat3, decimal, is_text, opt_text, same, u64_text};

verus! {

/// How long a challenge can be answered, in milliseconds.
pub const CHALLENGE_MILLIS: u64 = 60000;

pub struct ChallengeRequest {
    pub public_key: String,
}

pub struct ChallengeResponse {
    pub challenge: String,
}

/// That a master key lets another key act for it.
pub struct SubkeyCert {
    pub master_pubkey: String,
    pub subkey_pubkey: String,
}

/// Work that was done for a key: the number that shows it, and how much it was.
pub struct PowProof {
    pub nonce: String,
    pub level: u8,
}

/// The answer to a challenge, with all that the hub may ask for.
pub struct VerifyRequest {
    pub public_key: String,
    pub challenge: String,
    pub signature: String,
    pub subkey_cert: Option<SubkeyCert>,
    pub is_bot: Option<bool>,
    pub bot_meta: Option<BotMeta>,
    pub security_nonce: Option<u64>,
    pub security_level: Option<u32>,
    pub pow_proof: Option<PowProof>,
    pub certifications: Option<Vec<Certification>>,
    pub invite_code: Option<String>,
    pub challenge_token: Option<String>,
}

pub struct VerifyResponse {
    pub token: String,
    pub scope: String,
}

/// An account.
pub struct AccountRow {
    pub public_key: String,
    pub first_seen_at: i64,
    pub last_seen_at: i64,
    pub approval_status: String,
    pub master_pubkey: Option<String>,
    pub is_bot: i64,
    pub pow_level: i64,
}

/// A session, named by its token.
pub struct SessionRow {
    pub token: String,
    pub public_key: String,
    pub created_at: i64,
}

/// That a user has a role.
pub struct UserRole {
    pub user_public_key: String,
    pub role_id: String,
    pub assigned_at: i64,
}

/// That someone solved a puzzle.
pub struct ChallengeToken {
    pub token: String,
    pub pubkey: String,
    pub issued_at: i64,
    pub expires_at: i64,
    pub consumed_at: Option<i64>,
}

/// The settings that decide who is let in, as they are stored.
pub struct AuthSettings {
    pub min_security_level: Option<String>,
    pub min_pow_level: Option<String>,
    pub cert_mode: Option<String>,
    pub require_approval: Option<String>,
    pub challenge_mode: Option<String>,
    pub lobby_enabled: Option<String>,
    pub invite_only: bool,
}

/// Hands out the bytes as the challenge of the key, in place of an earlier one.
pub fn register_challenge(
    pending: &mut Table<String, PendingChallenge>,
    public_key: &str,
    bytes: Vec<u8>,
    now_ms: u64,
) -> (r: ChallengeResponse)
    requires
        old(pending).wf(),
        now_ms <= u64::MAX - CHALLENGE_MILLIS,
    ensures
        final(pending).wf(),
        r.challenge@ == hex_text(bytes@),
        final(pending)@ == old(pending)@.insert(
            public_key@,
            (PendingChallenge {
                challenge_bytes: bytes,
                expires_at: (now_ms + CHALLENGE_MILLIS) as u64,
            }),
        ),
{
    let challenge = hex_encode(&bytes);
    pending.insert(
        public_key.to_owned(),
        PendingChallenge { challenge_bytes: bytes, expires_at: now_ms + CHALLENGE_MILLIS },
    );
    ChallengeResponse { challenge }
}

/// Hands out a fresh challenge of 32 random bytes.
pub fn challenge(
    pending: &mut Table<String, PendingChallenge>,
    req: &ChallengeRequest,
    now_ms: u64,
) -> (r: ChallengeResponse)
    requires
        old(pending).wf(),
        now_ms <= u64::MAX - CHALLENGE_MILLIS,
    ensures
        final(pending).wf(),
        final(pending)@.dom() == old(pending)@.dom().insert(req.public_key@),
        forall|k: Seq<char>|
            k != req.public_key@ && old(pending)@.dom().contains(k)
                ==> #[trigger] final(pending)@[k] == old(pending)@[k],
        final(pending)@[req.public_key@].challenge_bytes@.len() == 32,
        final(pending)@[req.public_key@].expires_at == now_ms + CHALLENGE_MILLIS,
        r.challenge@ == hex_text(final(pending)@[req.public_key@].challenge_bytes@),
{
    let bytes = random_bytes(32);
    let r = register_challenge(pending, req.public_key.as_str(), bytes, now_ms);
    assert(pending@.dom() =~= old(pending)@.dom().insert(req.public_key@));
    r
}

/// The challenge that waits for the key.
pub open spec fn waiting(m: Map<Seq<char>, PendingChallenge>, key: Seq<char>) -> Option<
    PendingChallenge,
> {
    if m.dom().contains(key) {
        Some(m[key])
    } else {
        None
    }
}

/// Why the answer to the challenge is refused before its signature is looked at, where it is.
pub open spec fn answer_refusal(
    pending: Option<PendingChallenge>,
    req: VerifyRequest,
    now_ms: u64,
) -> Option<HubRefusal> {
    match pending {
        None => Some(hub_refusal(401, "No pending challenge for this key"@)),
        Some(p) => if now_ms > p.expires_at {
            Some(hub_refusal(401, "Challenge expired"@))
        } else if hex_bytes(req.challenge@) is None {
            Some(hub_refusal(400, "Invalid challenge hex"@))
        } else if hex_bytes(req.challenge@)->0 != p.challenge_bytes@ {
            Some(hub_refusal(401, "Challenge mismatch"@))
        } else if hex_bytes(req.signature@) is None {
            Some(hub_refusal(400, "Invalid signature hex"@))
        } else {
            None
        },
    }
}

fn same_bytes(a: &Vec<u8>, b: &Vec<u8>) -> (r: bool)
    ensures
        r == (a@ == b@),
{
    if a.len() != b.len() {
        return false;
    }
    let mut i: usize = 0;
    while i < a.len()
        invariant
            a@.len() == b@.len(),
            i <= a@.len(),
            forall|k: int| 0 <= k < i ==> a@[k] == b@[k],
        decreases a@.len() - i,
    {
        if a[i] != b[i] {
            return false;
        }
        i = i + 1;
    }
    assert(a@ =~= b@);
    true
}

/// Takes the challenge of the key away and holds the answer against it. The signature is still
/// to be checked.
pub fn take_challenge(
    pending: &mut Table<String, PendingChallenge>,
    req: &VerifyRequest,
    now_ms: u64,
) -> (r: Result<(), HubError>)
    requires
        old(pending).wf(),
    ensures
        final(pending).wf(),
        final(pending)@ == old(pending)@.remove(req.public_key@),
        match answer_refusal(waiting(old(pending)@, req.public_key@), *req, now_ms) {
            Some(d) => refused(r, d),
            None => r is Ok,
        },
{
    match pending.remove(&req.public_key) {
        None => Err(refuse(401, "No pending challenge for this key")),
        Some(p) => {
            if now_ms > p.expires_at {
                return Err(refuse(401, "Challenge expired"));
            }
            match hex_decode(req.challenge.as_str()) {
                None => return Err(refuse(400, "Invalid challenge hex")),
                Some(b) => {
                    if !same_bytes(&b, &p.challenge_bytes) {
                        return Err(refuse(401, "Challenge mismatch"));
                    }
                },
            }
            if hex_decode(req.signature.as_str()).is_none() {
                return Err(refuse(400, "Invalid signature hex"));
            }
            Ok(())
        },
    }
}

/// A challenge that was handed out is answered by sending it back in time, with a signature.
pub proof fn challenge_can_be_answered(
    before: Map<Seq<char>, PendingChallenge>,
    bytes: Vec<u8>,
    handed_out: u64,
    req: VerifyRequest,
    now_ms: u64,
)
    requires
        req.challenge@ == hex_text(bytes@),
        hex_bytes(req.signature@) is Some,
        now_ms <= handed_out + CHALLENGE_MILLIS <= u64::MAX,
    ensures
        answer_refusal(
            waiting(
                before.insert(
                    req.public_key@,
                    (PendingChallenge {
                        challenge_bytes: bytes,
                        expires_at: (handed_out + CHALLENGE_MILLIS) as u64,
                    }),
                ),
                req.public_key@,
            ),
            req,
            now_ms,
        ) is None,
{
    hex_round_trip(bytes@);
}

/// A challenge is answered once: afterwards, right or wrong, there is none for the key.
pub proof fn challenge_is_used_up(
    before: Map<Seq<char>, PendingChallenge>,
    req: VerifyRequest,
    again: VerifyRequest,
    now_ms: u64,
)
    requires
        again.public_key@ == req.public_key@,
    ensures
        answer_refusal(waiting(before.remove(req.public_key@), again.public_key@), again, now_ms)
            == Some(hub_refusal(401, "No pending challenge for this key"@)),
{
}

/// Who someone is: the key that their account has, and the master key, where they have one.
pub struct Identity {
    pub canonical: String,
    pub master: Option<String>,
}

/// The accounts of the master key, as a condition.
pub open spec fn is_of_master(master: Seq<char>) -> spec_fn(AccountRow) -> bool {
    |a: AccountRow| opt_text(a.master_pubkey) == Some(master)
}

/// The accounts under the key that have no master, as a condition.
pub open spec fn is_without_master(key: Seq<char>) -> spec_fn(AccountRow) -> bool {
    |a: AccountRow| a.public_key@ == key && a.master_pubkey is None
}

/// The accounts under the key, as a condition.
pub open spec fn is_under(key: Seq<char>) -> spec_fn(AccountRow) -> bool {
    |a: AccountRow| a.public_key@ == key
}

/// Who the bearer of the key is. Without a certificate they are their key. With one they are
/// the account that has the master key already, else the account that has had their key
/// without a master, else the master key itself.
pub open spec fn identity_of(
    users: Seq<AccountRow>,
    key: Seq<char>,
    cert: Option<SubkeyCert>,
    cert_fault: Option<Seq<char>>,
) -> Result<(Seq<char>, Option<Seq<char>>), HubRefusal> {
    match cert {
        None => Ok((key, None)),
        Some(c) => if cert_fault is Some {
            Err(hub_refusal(401, "Invalid cert: "@ + cert_fault->0))
        } else if c.subkey_pubkey@ != key {
            Err(hub_refusal(401, "Cert subkey_pubkey doesn't match auth pubkey"@))
        } else {
            let master = c.master_pubkey@;
            match first_match(users, is_of_master(master)) {
                Some(a) => Ok((a.public_key@, Some(master))),
                None => if first_match(users, is_without_master(key)) is Some {
                    Ok((key, Some(master)))
                } else {
                    Ok((master, Some(master)))
                },
            }
        },
    }
}

fn find_master<'a>(users: &'a Vec<AccountRow>, master: &str) -> (r: Option<&'a AccountRow>)
    ensures
        match first_match(users@, is_of_master(master@)) {
            Some(a) => r matches Some(x) && *x == a,
            None => r is None,
        },
{
    let test = |x: &AccountRow| -> (b: bool)
        ensures
            b == is_of_master(master@)(*x),
    {
        is_text(&x.master_pubkey, master)
    };
    find_row(users, test, Ghost(is_of_master(master@)))
}

fn without_master(users: &Vec<AccountRow>, key: &str) -> (r: bool)
    ensures
        r == (first_match(users@, is_without_master(key@)) is Some),
{
    let test = |x: &AccountRow| -> (b: bool)
        ensures
            b == is_without_master(key@)(*x),
    {
        x.master_pubkey.is_none() && same(x.public_key.as_str(), key)
    };
    find_row(users, test, Ghost(is_without_master(key@))).is_some()
}

fn find_account<'a>(users: &'a Vec<AccountRow>, key: &str) -> (r: Option<&'a AccountRow>)
    ensures
        match first_match(users@, is_under(key@)) {
            Some(a) => r matches Some(x) && *x == a,
            None => r is None,
        },
{
    let test = |x: &AccountRow| -> (b: bool)
        ensures
            b == is_under(key@)(*x),
    {
        same(x.public_key.as_str(), key)
    };
    find_row(users, test, Ghost(is_under(key@)))
}

/// Who the bearer of the key is, given what is wrong with the certificate, where something is.
pub fn resolve_canonical_identity(
    users: &Vec<AccountRow>,
    auth_pubkey: &str,
    cert: &Option<SubkeyCert>,
    cert_fault: &Option<String>,
) -> (r: Result<Identity, HubError>)
    ensures
        match identity_of(users@, auth_pubkey@, *cert, opt_text(*cert_fault)) {
            Err(d) => refused(r, d),
            Ok(x) => r matches Ok(i) && i.canonical@ == x.0 && opt_text(i.master) == x.1,
        },
{
    match cert {
        None => Ok(Identity { canonical: auth_pubkey.to_owned(), master: None }),
        Some(c) => {
            match cert_fault {
                Some(f) => return Err(
                    refuse_text(401, concat2("Invalid cert: ", f.as_str())),
                ),
                None => {},
            }
            if !same(c.subkey_pubkey.as_str(), auth_pubkey) {
                return Err(refuse(401, "Cert subkey_pubkey doesn't match auth pubkey"));
            }
            let master = c.master_pubkey.as_str();
            match find_master(users, master) {
                Some(a) => Ok(
                    Identity { canonical: a.public_key.clone(), master: Some(master.to_owned()) },
                ),
                None => if without_master(users, auth_pubkey) {
                    Ok(
                        Identity {
                            canonical: auth_pubkey.to_owned(),
                            master: Some(master.to_owned()),
                        },
                    )
                } else {
                    Ok(
                        Identity {
                            canonical: master.to_owned(),
                            master: Some(master.to_owned()),
                        },
                    )
                },
            }
        },
    }
}

/// Every device with a good certificate of the same master is the same user, once the master
/// is recorded.
pub proof fn devices_share_an_identity(
    users: Seq<AccountRow>,
    one: Seq<char>,
    other: Seq<char>,
    a: SubkeyCert,
    b: SubkeyCert,
    i: int,
)
    requires
        a.subkey_pubkey@ == one,
        b.subkey_pubkey@ == other,
        a.master_pubkey@ == b.master_pubkey@,
        0 <= i < users.len(),
        opt_text(users[i].master_pubkey) == Some(a.master_pubkey@),
    ensures
        identity_of(users, one, Some(a), None) == identity_of(users, other, Some(b), None),
        identity_of(users, one, Some(a), None) is Ok,
{
    lemma_match_holds(users, is_of_master(a.master_pubkey@));
    assert(is_of_master(a.master_pubkey@)(users[i]));
}

/// Why a bot is not let in, where it is not: one that says it is a bot must have been invited.
pub open spec fn bot_refusal(
    req: VerifyRequest,
    users: Seq<AccountRow>,
    key: Seq<char>,
) -> Option<HubRefusal> {
    if req.is_bot != Some(true) {
        None
    } else {
        match first_match(users, is_under(key)) {
            Some(a) => if a.is_bot == 1 && (a.approval_status@ == "bot_pending"@
                || a.approval_status@ == "approved"@) {
                None
            } else {
                Some(hub_refusal(403, "bot_not_invited"@))
            },
            None => Some(hub_refusal(403, "bot_not_invited"@)),
        }
    }
}

/// What a bot that was let in leads to: its profile and commands where it says what they are,
/// and then its account is approved.
pub struct BotRegistration {
    pub public_key: String,
    pub profile: Option<BotProfileRow>,
    pub commands: Option<Vec<BotCommandRow>>,
}

/// Whether the bot is registered, where the request comes from one.
pub open spec fn registered(
    b: Option<BotRegistration>,
    req: VerifyRequest,
    key: Seq<char>,
    now: i64,
) -> bool {
    if req.is_bot == Some(true) {
        b matches Some(x) && x.public_key@ == key && match req.bot_meta {
            Some(m) => {
                &&& x.profile matches Some(p) && profile_saved(p, m, key, now)
                &&& commands_replaced(x.commands, m, key)
            },
            None => x.profile is None && x.commands is None,
        }
    } else {
        b is None
    }
}

/// Registers the bot, where the request comes from one that was invited.
pub fn register_bot(req: &VerifyRequest, users: &Vec<AccountRow>, key: &str, now: i64) -> (r:
    Result<Option<BotRegistration>, HubError>)
    ensures
        match bot_refusal(*req, users@, key@) {
            Some(d) => refused(r, d),
            None => r matches Ok(b) && registered(b, *req, key@, now),
        },
{
    let bot = match req.is_bot {
        Some(b) => b,
        None => false,
    };
    if !bot {
        return Ok(None);
    }
    match find_account(users, key) {
        None => Err(refuse(403, "bot_not_invited")),
        Some(a) => {
            if !(a.is_bot == 1 && (same(a.approval_status.as_str(), "bot_pending") || same(
                a.approval_status.as_str(),
                "approved",
            ))) {
                return Err(refuse(403, "bot_not_invited"));
            }
            match &req.bot_meta {
                Some(m) => Ok(
                    Some(
                        BotRegistration {
                            public_key: key.to_owned(),
                            profile: Some(profile_row(key, m, now)),
                            commands: replaced_commands(key, m),
                        },
                    ),
                ),
                None => Ok(
                    Some(
                        BotRegistration {
                            public_key: key.to_owned(),
                            profile: None,
                            commands: None,
                        },
                    ),
                ),
            }
        },
    }
}

/// The number that a setting holds, at most `max`; 0 where it is absent or unreadable.
pub open spec fn level_of(setting: Option<Seq<char>>, max: nat) -> nat {
    match setting {
        Some(s) => match unsigned_value(s, max) {
            Some(n) => n,
            None => 0,
        },
        None => 0,
    }
}

/// The number that a setting holds, at most `max`; 0 where it is absent or unreadable.
pub fn read_level(setting: &Option<String>, max: u64) -> (r: u64)
    ensures
        r == level_of(opt_text(*setting), max as nat),
        r <= max,
{
    match setting {
        Some(s) => match parse_unsigned(s.as_str(), max) {
            Some(n) => n,
            None => 0,
        },
        None => 0,
    }
}

/// The work that a request claims, to be shown by the number: nothing where it claims nothing.
pub struct LevelClaim {
    pub nonce: u64,
    pub level: u32,
}

/// What the signature of a request is held against: its key, and the challenge that it answers.
pub fn signature_claim(req: &VerifyRequest) -> (c: Option<SignatureClaim>)
    ensures
        is_claim(c, req.public_key@, hex_bytes(req.challenge@), hex_bytes(req.signature@)),
{
    match hex_decode(req.challenge.as_str()) {
        Some(message) => claim_over(
            req.public_key.as_str(),
            message.as_slice(),
            req.signature.as_str(),
        ),
        None => None,
    }
}

/// The work that a request claims for its key, by its own fields.
pub fn security_claim(req: &VerifyRequest) -> (c: LevelClaim)
    ensures
        c.nonce == match req.security_nonce {
            Some(n) => n,
            None => 0u64,
        },
        c.level == claimed_level(*req),
{
    LevelClaim {
        nonce: match req.security_nonce {
            Some(n) => n,
            None => 0,
        },
        level: match req.security_level {
            Some(n) => n,
            None => 0,
        },
    }
}

/// The work that a request claims for its key in its proof, where the number can be read.
pub fn pow_claim(req: &VerifyRequest) -> (c: Option<LevelClaim>)
    ensures
        match req.pow_proof {
            Some(p) => match unsigned_value(p.nonce@, u64::MAX as nat) {
                Some(n) => c matches Some(x) && x.nonce == n && x.level == p.level,
                None => c is None,
            },
            None => c is None,
        },
{
    match &req.pow_proof {
        Some(p) => match parse_unsigned(p.nonce.as_str(), u64::MAX) {
            Some(nonce) => Some(LevelClaim { nonce, level: p.level as u32 }),
            None => None,
        },
        None => None,
    }
}

/// The level that a request claims.
pub open spec fn claimed_level(req: VerifyRequest) -> u32 {
    match req.security_level {
        Some(n) => n,
        None => 0,
    }
}

/// Why the security level does not do, where it does not.
pub open spec fn level_refusal(
    req: VerifyRequest,
    min_level: nat,
    level_proved: bool,
) -> Option<HubRefusal> {
    if min_level == 0 {
        None
    } else if claimed_level(req) < min_level {
        Some(
            hub_refusal(
                403,
                "Security level "@ + decimal(claimed_level(req) as nat) + " is below minimum "@
                    + decimal(min_level),
            ),
        )
    } else if !level_proved {
        Some(hub_refusal(403, "Invalid security level proof"@))
    } else {
        None
    }
}

/// Why the work does not do, where it does not.
pub open spec fn pow_refusal(req: VerifyRequest, min_pow: nat, pow_proved: bool) -> Option<
    HubRefusal,
> {
    if min_pow == 0 {
        None
    } else {
        match req.pow_proof {
            None => Some(hub_refusal(403, "pow_required"@)),
            Some(p) => if p.level < min_pow {
                Some(hub_refusal(403, "pow_required"@))
            } else if unsigned_value(p.nonce@, u64::MAX as nat) is None {
                Some(hub_refusal(400, "Invalid pow_proof nonce"@))
            } else if !pow_proved {
                Some(hub_refusal(403, "pow_required"@))
            } else {
                None
            },
        }
    }
}

/// The key that certifications must be for: the master key, or without one the key itself.
pub open spec fn certified_key(req: VerifyRequest) -> Seq<char> {
    match req.subkey_cert {
        Some(c) => c.master_pubkey@,
        None => req.public_key@,
    }
}

/// Whether one of the certifications lets the bearer in.
pub open spec fn some_admits(
    certs: Seq<Certification>,
    signed: Seq<bool>,
    key: Seq<char>,
    mode: Seq<char>,
    issuers: Seq<TrustedIssuer>,
    require: CertRequire,
    now: i64,
) -> bool {
    exists|i: int|
        0 <= i < certs.len() && admits(
            #[trigger] certs[i],
            i < signed.len() && signed[i],
            key,
            mode,
            issuers,
            require,
            now,
        )
}

fn any_admits(
    certs: &Vec<Certification>,
    signed: &Vec<bool>,
    key: &str,
    mode: &str,
    issuers: &Vec<TrustedIssuer>,
    require: &CertRequire,
    now: i64,
) -> (r: bool)
    ensures
        r == some_admits(certs@, signed@, key@, mode@, issuers@, *require, now),
{
    let mut i: usize = 0;
    while i < certs.len()
        invariant
            i <= certs@.len(),
            forall|k: int|
                0 <= k < i ==> !admits(
                    #[trigger] certs@[k],
                    k < signed@.len() && signed@[k],
                    key@,
                    mode@,
                    issuers@,
                    *require,
                    now,
                ),
        decreases certs@.len() - i,
    {
        let good = if i < signed.len() {
            signed[i]
        } else {
            false
        };
        if certification_admits(&certs[i], good, key, mode, issuers, require, now) {
            return true;
        }
        i = i + 1;
    }
    false
}

/// What is known when an answer to a challenge comes: what the keys show, who is there, and
/// what is asked of newcomers.
pub struct VerifyFacts {
    /// Whether the signature is that of the key over the challenge.
    pub signed: bool,
    /// What is wrong with the certificate of the key, where something is.
    pub cert_fault: Option<String>,
    /// Whether the number shows the level that the request claims.
    pub level_proved: bool,
    /// Whether the number in the proof shows the level in the proof.
    pub pow_proved: bool,
    /// Of each certification, whether it is signed by its issuer.
    pub certs_signed: Vec<bool>,
    pub users: Vec<AccountRow>,
    pub user_count: u64,
    pub user_roles: Vec<UserRole>,
    pub bans: Vec<BanResponse>,
    pub settings: AuthSettings,
    pub trusted_issuers: Vec<TrustedIssuer>,
    pub cert_require: CertRequire,
}

/// The mode in which certifications are asked for.
pub open spec fn mode_of(s: AuthSettings) -> Seq<char> {
    match s.cert_mode {
        Some(m) => m@,
        None => "none"@,
    }
}

/// The certifications that the request brings.
pub open spec fn certs_of(req: VerifyRequest) -> Seq<Certification> {
    match req.certifications {
        Some(c) => c@,
        None => Seq::empty(),
    }
}

/// Why someone who is who they say is not let in, where they are not: a ban, the level, the
/// work, the certifications, in this order.
pub open spec fn gate_refusal(req: VerifyRequest, f: VerifyFacts, key: Seq<char>, now: i64) -> Option<
    HubRefusal,
> {
    let level = level_refusal(
        req,
        level_of(opt_text(f.settings.min_security_level), u32::MAX as nat),
        f.level_proved,
    );
    let pow = pow_refusal(
        req,
        level_of(opt_text(f.settings.min_pow_level), u8::MAX as nat),
        f.pow_proved,
    );
    if banned(f.bans@, key) {
        Some(hub_refusal(403, "User is banned"@))
    } else if level is Some {
        level
    } else if pow is Some {
        pow
    } else if mode_of(f.settings) != "none"@ && !some_admits(
        certs_of(req),
        f.certs_signed@,
        certified_key(req),
        mode_of(f.settings),
        f.trusted_issuers@,
        f.cert_require,
        now,
    ) {
        Some(hub_refusal(403, "cert_required"@))
    } else {
        None
    }
}

/// Refuses someone who is who they say but may not come in.
pub fn pass_gate(req: &VerifyRequest, facts: &VerifyFacts, key: &str, now: i64) -> (r: Result<
    (),
    HubError,
>)
    ensures
        match gate_refusal(*req, *facts, key@, now) {
            Some(d) => refused(r, d),
            None => r is Ok,
        },
{
    if is_banned(&facts.bans, key) {
        return Err(refuse(403, "User is banned"));
    }
    let min_level: u64 = read_level(&facts.settings.min_security_level, u32::MAX as u64);
    if min_level > 0 {
        let claim = security_claim(req);
        if (claim.level as u64) < min_level {
            let head = concat2("Security level ", u64_text(claim.level as u64).as_str());
            let text = concat3(
                head.as_str(),
                " is below minimum ",
                u64_text(min_level).as_str(),
            );
            return Err(refuse_text(403, text));
        }
        if !facts.level_proved {
            return Err(refuse(403, "Invalid security level proof"));
        }
    }
    let min_pow: u64 = read_level(&facts.settings.min_pow_level, u8::MAX as u64);
    if min_pow > 0 {
        match &req.pow_proof {
            None => return Err(refuse(403, "pow_required")),
            Some(p) => {
                if (p.level as u64) < min_pow {
                    return Err(refuse(403, "pow_required"));
                }
                if pow_claim(req).is_none() {
                    return Err(refuse(400, "Invalid pow_proof nonce"));
                }
                if !facts.pow_proved {
                    return Err(refuse(403, "pow_required"));
                }
            },
        }
    }
    let mode = load_cert_mode(&facts.settings.cert_mode);
    if !same(mode.as_str(), "none") {
        let key_to_certify = match &req.subkey_cert {
            Some(c) => c.master_pubkey.as_str(),
            None => req.public_key.as_str(),
        };
        let satisfied = match &req.certifications {
            Some(certs) => any_admits(
                certs,
                &facts.certs_signed,
                key_to_certify,
                mode.as_str(),
                &facts.trusted_issuers,
                &facts.cert_require,
                now,
            ),
            None => false,
        };
        if !satisfied {
            return Err(refuse(403, "cert_required"));
        }
    }
    Ok(())
}

/// The status of a newcomer: they wait for approval where the hub asks for it, but for the
/// first user of all.
pub open spec fn initial_status(s: AuthSettings, user_count: u64) -> Seq<char> {
    if opt_text(s.require_approval) == Some("true"@) && user_count > 0 {
        "pending"@
    } else {
        "approved"@
    }
}

/// Whether the account is the one that someone who was let in has: the one that was there,
/// seen now, which keeps its master key where it has one, or a new one.
pub open spec fn enrolled(
    a: AccountRow,
    known: Option<AccountRow>,
    bot: Option<BotRegistration>,
    key: Seq<char>,
    master: Option<Seq<char>>,
    status: Seq<char>,
    now: i64,
) -> bool {
    &&& a.last_seen_at == now
    &&& match known {
        Some(k) => {
            &&& a.public_key == k.public_key
            &&& a.first_seen_at == k.first_seen_at
            &&& opt_text(a.master_pubkey) == if k.master_pubkey is Some {
                opt_text(k.master_pubkey)
            } else {
                master
            }
            &&& a.pow_level == k.pow_level
            &&& a.is_bot == if bot is Some {
                1i64
            } else {
                k.is_bot
            }
            &&& a.approval_status@ == if bot is Some && bot->0.profile is Some {
                "approved"@
            } else {
                k.approval_status@
            }
        },
        None => {
            &&& a.public_key@ == key
            &&& a.first_seen_at == now
            &&& opt_text(a.master_pubkey) == master
            &&& a.pow_level == 0
            &&& a.is_bot == 0
            &&& a.approval_status@ == status
        },
    }
}

fn enrol(
    users: &Vec<AccountRow>,
    bot: &Option<BotRegistration>,
    who: &Identity,
    status: &str,
    now: i64,
) -> (a: AccountRow)
    ensures
        enrolled(
            a,
            first_match(users@, is_under(who.canonical@)),
            *bot,
            who.canonical@,
            opt_text(who.master),
            status@,
            now,
        ),
{
    match find_account(users, who.canonical.as_str()) {
        Some(k) => {
            let master: Option<String> = match &k.master_pubkey {
                Some(m) => Some(m.clone()),
                None => who.master.clone(),
            };
            let is_bot: i64 = match bot {
                Some(_) => 1,
                None => k.is_bot,
            };
            let approval_status: String = match bot {
                Some(b) => if b.profile.is_some() {
                    "approved".to_owned()
                } else {
                    k.approval_status.clone()
                },
                None => k.approval_status.clone(),
            };
            AccountRow {
                public_key: k.public_key.clone(),
                first_seen_at: k.first_seen_at,
                last_seen_at: now,
                approval_status,
                master_pubkey: master,
                is_bot,
                pow_level: k.pow_level,
            }
        },
        None => AccountRow {
            public_key: who.canonical.clone(),
            first_seen_at: now,
            last_seen_at: now,
            approval_status: status.to_owned(),
            master_pubkey: who.master.clone(),
            is_bot: 0,
            pow_level: 0,
        },
    }
}

/// Someone who was let in: their account, and the session that they get.
pub struct Enrolment {
    pub account: AccountRow,
    pub session: SessionRow,
}

/// Whether an invitation is to be used up before the newcomer is let in for good.
pub enum InviteStep {
    NotNeeded,
    Use { code: String },
}

/// What an answer to a challenge leads to at once: the bot that registers, the account and the
/// session of someone who was let in, and the invitation to be used up, or why it is refused.
pub struct Entry {
    pub bot: Option<BotRegistration>,
    pub enrolment: Option<Enrolment>,
    pub step: Result<InviteStep, HubError>,
}

/// Whether the user has a role.
pub open spec fn has_roles(roles: Seq<UserRole>, key: Seq<char>) -> bool {
    exists|i: int| 0 <= i < roles.len() && (#[trigger] roles[i]).user_public_key@ == key
}

fn holds_role(roles: &Vec<UserRole>, key: &str) -> (r: bool)
    ensures
        r == has_roles(roles@, key@),
{
    let mut i: usize = 0;
    while i < roles.len()
        invariant
            i <= roles@.len(),
            forall|k: int| 0 <= k < i ==> (#[trigger] roles@[k]).user_public_key@ != key@,
        decreases roles@.len() - i,
    {
        if same(roles[i].user_public_key.as_str(), key) {
            return true;
        }
        i = i + 1;
    }
    false
}

/// Whether the step is the one for the newcomer: with no role yet, and where the hub asks for
/// an invitation, they need one.
pub open spec fn invite_asked(
    step: Result<InviteStep, HubError>,
    req: VerifyRequest,
    f: VerifyFacts,
    key: Seq<char>,
) -> bool {
    if has_roles(f.user_roles@, key) || !f.settings.invite_only {
        step matches Ok(InviteStep::NotNeeded)
    } else {
        match req.invite_code {
            Some(c) => step matches Ok(InviteStep::Use { code }) && code@ == c@,
            None => refused(step, hub_refusal(403, "This hub requires an invite code"@)),
        }
    }
}

/// Why the request is refused before anything is stored, where it is: the answer, the
/// signature, the certificate of the key, the bot.
pub open spec fn entry_refusal(
    pending: Option<PendingChallenge>,
    req: VerifyRequest,
    f: VerifyFacts,
    now_ms: u64,
) -> Option<HubRefusal> {
    let who = identity_of(f.users@, req.public_key@, req.subkey_cert, opt_text(f.cert_fault));
    if answer_refusal(pending, req, now_ms) is Some {
        answer_refusal(pending, req, now_ms)
    } else if !f.signed {
        Some(hub_refusal(401, "Invalid signature"@))
    } else {
        match who {
            Err(d) => Some(d),
            Ok(x) => bot_refusal(req, f.users@, x.0),
        }
    }
}

/// Whether the entry is what the request leads to.
pub open spec fn entered(
    e: Entry,
    pending: Option<PendingChallenge>,
    req: VerifyRequest,
    f: VerifyFacts,
    token: Seq<char>,
    now_ms: u64,
    now: i64,
) -> bool {
    match entry_refusal(pending, req, f, now_ms) {
        Some(d) => e.bot is None && e.enrolment is None && refused(e.step, d),
        None => {
            let who = identity_of(
                f.users@,
                req.public_key@,
                req.subkey_cert,
                opt_text(f.cert_fault),
            )->Ok_0;
            &&& registered(e.bot, req, who.0, now)
            &&& match gate_refusal(req, f, who.0, now) {
                Some(d) => e.enrolment is None && refused(e.step, d),
                None => {
                    &&& e.enrolment matches Some(x) && enrolled(
                        x.account,
                        first_match(f.users@, is_under(who.0)),
                        e.bot,
                        who.0,
                        who.1,
                        initial_status(f.settings, f.user_count),
                        now,
                    ) && x.session.token@ == token && x.session.public_key@ == who.0
                        && x.session.created_at == now
                    &&& invite_asked(e.step, req, f, who.0)
                },
            }
        },
    }
}

/// Holds the answer to a challenge against all that the hub asks for. The challenge is used up
/// in any case. Someone who passes gets an account and a session; where an invitation is
/// asked for it is still to be used up, and without one they are refused after all.
pub fn verify(
    pending: &mut Table<String, PendingChallenge>,
    req: &VerifyRequest,
    facts: &VerifyFacts,
    token: &str,
    now_ms: u64,
    now: i64,
) -> (e: Entry)
    requires
        old(pending).wf(),
    ensures
        final(pending).wf(),
        final(pending)@ == old(pending)@.remove(req.public_key@),
        entered(
            e,
            waiting(old(pending)@, req.public_key@),
            *req,
            *facts,
            token@,
            now_ms,
            now,
        ),
{
    match take_challenge(pending, req, now_ms) {
        Ok(_) => {},
        Err(e) => return Entry { bot: None, enrolment: None, step: Err(e) },
    }
    if !facts.signed {
        return Entry {
            bot: None,
            enrolment: None,
            step: Err(refuse(401, "Invalid signature")),
        };
    }
    let who = match resolve_canonical_identity(
        &facts.users,
        req.public_key.as_str(),
        &req.subkey_cert,
        &facts.cert_fault,
    ) {
        Ok(i) => i,
        Err(e) => return Entry { bot: None, enrolment: None, step: Err(e) },
    };
    let key = who.canonical.as_str();
    let bot = match register_bot(req, &facts.users, key, now) {
        Ok(b) => b,
        Err(e) => return Entry { bot: None, enrolment: None, step: Err(e) },
    };
    match pass_gate(req, facts, key, now) {
        Ok(_) => {},
        Err(e) => return Entry { bot, enrolment: None, step: Err(e) },
    }
    let status = if is_text(&facts.settings.require_approval, "true") && facts.user_count > 0 {
        "pending"
    } else {
        "approved"
    };
    let account = enrol(&facts.users, &bot, &who, status, now);
    let session = SessionRow {
        token: token.to_owned(),
        public_key: key.to_owned(),
        created_at: now,
    };
    let step: Result<InviteStep, HubError> = if facts.settings.invite_only && !holds_role(
        &facts.user_roles,
        key,
    ) {
        match &req.invite_code {
            Some(c) => Ok(InviteStep::Use { code: c.clone() }),
            None => Err(refuse(403, "This hub requires an invite code")),
        }
    } else {
        Ok(InviteStep::NotNeeded)
    };
    Entry { bot, enrolment: Some(Enrolment { account, session }), step }
}

/// An account that has a master key keeps it, whatever certificate is brought: no device with
/// another certificate takes it over.
pub proof fn master_is_kept(
    a: AccountRow,
    known: AccountRow,
    bot: Option<BotRegistration>,
    key: Seq<char>,
    master: Option<Seq<char>>,
    status: Seq<char>,
    now: i64,
)
    requires
        enrolled(a, Some(known), bot, key, master, status, now),
        known.master_pubkey is Some,
    ensures
        opt_text(a.master_pubkey) == opt_text(known.master_pubkey),
{
}

/// One who is banned gets no account and no session, whichever of their devices they use.
pub proof fn the_banned_stay_out(
    e: Entry,
    pending: Option<PendingChallenge>,
    req: VerifyRequest,
    f: VerifyFacts,
    token: Seq<char>,
    now_ms: u64,
    now: i64,
)
    requires
        entered(e, pending, req, f, token, now_ms, now),
        identity_of(
            f.users@,
            req.public_key@,
            req.subkey_cert,
            opt_text(f.cert_fault),
        ) matches Ok(who) && banned(f.bans@, who.0),
    ensures
        e.enrolment is None,
        e.step is Err,
{
}

/// The role of the one who owns the hub.
pub const OWNER_ROLE: &'static str = "builtin-owner";

/// The role that everyone has.
pub const EVERYONE_ROLE: &'static str = "builtin-everyone";

/// Whether someone has the role.
pub open spec fn role_taken(roles: Seq<UserRole>, role: Seq<char>) -> bool {
    exists|i: int| 0 <= i < roles.len() && (#[trigger] roles[i]).role_id@ == role
}

fn is_taken(roles: &Vec<UserRole>, role: &str) -> (r: bool)
    ensures
        r == role_taken(roles@, role@),
{
    let mut i: usize = 0;
    while i < roles.len()
        invariant
            i <= roles@.len(),
            forall|k: int| 0 <= k < i ==> (#[trigger] roles@[k]).role_id@ != role@,
        decreases roles@.len() - i,
    {
        if same(roles[i].role_id.as_str(), role) {
            return true;
        }
        i = i + 1;
    }
    false
}

/// The roles that the user gets: none where they have one already, else that of everyone, and
/// before it that of the owner where no one has it.
pub open spec fn new_roles(roles: Seq<UserRole>, key: Seq<char>) -> Seq<Seq<char>> {
    if has_roles(roles, key) {
        Seq::empty()
    } else if role_taken(roles, OWNER_ROLE@) {
        seq![EVERYONE_ROLE@]
    } else {
        seq![OWNER_ROLE@, EVERYONE_ROLE@]
    }
}

/// Whether the rows give the user the roles.
pub open spec fn gives(rows: Seq<UserRole>, ids: Seq<Seq<char>>, key: Seq<char>, now: i64) -> bool {
    &&& rows.len() == ids.len()
    &&& forall|i: int|
        0 <= i < rows.len() ==> (#[trigger] rows[i]).role_id@ == ids[i] && rows[i].user_public_key@
            == key && rows[i].assigned_at == now
}

/// The roles that a newcomer gets.
pub fn assign_roles(roles: &Vec<UserRole>, key: &str, now: i64) -> (r: Vec<UserRole>)
    ensures
        gives(r@, new_roles(roles@, key@), key@, now),
{
    let mut out: Vec<UserRole> = Vec::new();
    if holds_role(roles, key) {
        return out;
    }
    if !is_taken(roles, OWNER_ROLE) {
        out.push(
            UserRole {
                user_public_key: key.to_owned(),
                role_id: OWNER_ROLE.to_owned(),
                assigned_at: now,
            },
        );
    }
    out.push(
        UserRole {
            user_public_key: key.to_owned(),
            role_id: EVERYONE_ROLE.to_owned(),
            assigned_at: now,
        },
    );
    out
}

/// The first to come owns the hub and is approved, even where approval is asked for.
pub proof fn the_first_owns_the_hub(s: AuthSettings, roles: Seq<UserRole>, key: Seq<char>)
    requires
        roles.len() == 0,
    ensures
        initial_status(s, 0) == "approved"@,
        new_roles(roles, key).contains(OWNER_ROLE@),
{
    assert(new_roles(roles, key)[0] == OWNER_ROLE@);
}

/// There is never a second owner by coming in: once someone has the role, no newcomer gets it.
pub proof fn no_second_owner(roles: Seq<UserRole>, key: Seq<char>)
    requires
        role_taken(roles, OWNER_ROLE@),
    ensures
        !new_roles(roles, key).contains(OWNER_ROLE@),
{
    reveal_strlit("builtin-owner");
    reveal_strlit("builtin-everyone");
    assert("builtin-owner"@.len() != "builtin-everyone"@.len());
}

/// The tokens with the text, as a condition.
pub open spec fn is_token(token: Seq<char>) -> spec_fn(ChallengeToken) -> bool {
    |t: ChallengeToken| t.token@ == token
}

/// The mode in which puzzles are asked for; off where nothing was set.
pub open spec fn challenge_mode(s: AuthSettings) -> Seq<char> {
    match s.challenge_mode {
        Some(m) => m@,
        None => "off"@,
    }
}

/// Why the token of the puzzle does not do, where it does not.
pub open spec fn token_refusal(
    req: VerifyRequest,
    mode: Seq<char>,
    tokens: Seq<ChallengeToken>,
    now: i64,
) -> Option<HubRefusal> {
    if mode == "off"@ {
        None
    } else {
        match req.challenge_token {
            None => Some(hub_refusal(403, "Challenge token required"@)),
            Some(ct) => match first_match(tokens, is_token(ct@)) {
                None => Some(hub_refusal(403, "Invalid challenge token"@)),
                Some(t) => if t.consumed_at is Some {
                    Some(hub_refusal(403, "Challenge token already used"@))
                } else if now > t.expires_at {
                    Some(hub_refusal(403, "Challenge token expired"@))
                } else if t.pubkey@ != req.public_key@ {
                    Some(hub_refusal(403, "Challenge token pubkey mismatch"@))
                } else {
                    None
                },
            },
        }
    }
}

fn find_token<'a>(tokens: &'a Vec<ChallengeToken>, token: &str) -> (r: Option<&'a ChallengeToken>)
    ensures
        match first_match(tokens@, is_token(token@)) {
            Some(t) => r matches Some(x) && *x == t,
            None => r is None,
        },
{
    let test = |x: &ChallengeToken| -> (b: bool)
        ensures
            b == is_token(token@)(*x),
    {
        same(x.token.as_str(), token)
    };
    find_row(tokens, test, Ghost(is_token(token@)))
}

/// Holds the token of the puzzle against what is asked for: the token that is used up, where
/// one is.
pub fn check_challenge_token(
    req: &VerifyRequest,
    settings: &AuthSettings,
    tokens: &Vec<ChallengeToken>,
    now: i64,
) -> (r: Result<Option<String>, HubError>)
    ensures
        match token_refusal(*req, challenge_mode(*settings), tokens@, now) {
            Some(d) => refused(r, d),
            None => r matches Ok(used) && opt_text(used) == if challenge_mode(*settings)
                == "off"@ {
                None
            } else {
                opt_text(req.challenge_token)
            },
        },
{
    let off = match &settings.challenge_mode {
        Some(m) => same(m.as_str(), "off"),
        None => true,
    };
    if off {
        return Ok(None);
    }
    match &req.challenge_token {
        None => Err(refuse(403, "Challenge token required")),
        Some(ct) => match find_token(tokens, ct.as_str()) {
            None => Err(refuse(403, "Invalid challenge token")),
            Some(t) => {
                if t.consumed_at.is_some() {
                    return Err(refuse(403, "Challenge token already used"));
                }
                if now > t.expires_at {
                    return Err(refuse(403, "Challenge token expired"));
                }
                if !same(t.pubkey.as_str(), req.public_key.as_str()) {
                    return Err(refuse(403, "Challenge token pubkey mismatch"));
                }
                Ok(Some(ct.clone()))
            },
        },
    }
}

/// How far the session reaches: only into the lobby where there is one and the user has shown
/// too little work. There is a lobby unless the setting says otherwise.
pub open spec fn session_scope(s: AuthSettings, pow_level: i64) -> Seq<char> {
    let lobby = s.lobby_enabled is None || s.lobby_enabled->0@ == "1"@;
    if lobby && (pow_level as u32) < level_of(opt_text(s.min_security_level), u32::MAX as nat) {
        "lobby"@
    } else {
        "member"@
    }
}

/// How someone who was let in comes to their place: the roles that they get, the token of the
/// puzzle that is used up, and the answer.
pub struct Completion {
    pub roles: Vec<UserRole>,
    pub used_token: Option<String>,
    pub answer: Result<VerifyResponse, HubError>,
}

/// Finishes what an answer to a challenge began, once no invitation is missing.
pub fn complete_verify(
    req: &VerifyRequest,
    enrolment: &Enrolment,
    settings: &AuthSettings,
    user_roles: &Vec<UserRole>,
    tokens: &Vec<ChallengeToken>,
    now: i64,
) -> (c: Completion)
    ensures
        gives(
            c.roles@,
            new_roles(user_roles@, enrolment.session.public_key@),
            enrolment.session.public_key@,
            now,
        ),
        match token_refusal(*req, challenge_mode(*settings), tokens@, now) {
            Some(d) => refused(c.answer, d) && c.used_token is None,
            None => {
                &&& opt_text(c.used_token) == if challenge_mode(*settings) == "off"@ {
                    None
                } else {
                    opt_text(req.challenge_token)
                }
                &&& c.answer matches Ok(a) && a.token@ == enrolment.session.token@ && a.scope@
                    == session_scope(*settings, enrolment.account.pow_level)
            },
        },
{
    let roles = assign_roles(user_roles, enrolment.session.public_key.as_str(), now);
    match check_challenge_token(req, settings, tokens, now) {
        Err(e) => Completion { roles, used_token: None, answer: Err(e) },
        Ok(used_token) => {
            let lobby = match &settings.lobby_enabled {
                Some(v) => same(v.as_str(), "1"),
                None => true,
            };
            let min_level: u64 = read_level(&settings.min_security_level, u32::MAX as u64);
            let pow: u32 = enrolment.account.pow_level as u32;
            let scope: String = if lobby && (pow as u64) < min_level {
                "lobby".to_owned()
            } else {
                "member".to_owned()
            };
            Completion {
                roles,
                used_token,
                answer: Ok(VerifyResponse { token: enrolment.session.token.clone(), scope }),
            }
        },
    }
}

/// Why a session is not renewed, where it is not.
pub open spec fn renewal_refusal(
    pending: Option<PendingChallenge>,
    req: VerifyRequest,
    user: Seq<char>,
    signed: bool,
    now_ms: u64,
) -> Option<HubRefusal> {
    if answer_refusal(pending, req, now_ms) is Some {
        answer_refusal(pending, req, now_ms)
    } else if req.public_key@ != user {
        Some(hub_refusal(403, "Renew pubkey does not match authenticated identity"@))
    } else if !signed {
        Some(hub_refusal(401, "Invalid signature"@))
    } else {
        None
    }
}

/// Gives a user who has a session another one, on their answer to a challenge. The old session
/// goes on.
pub fn renew(
    pending: &mut Table<String, PendingChallenge>,
    user_key: &str,
    req: &VerifyRequest,
    signed: bool,
    token: &str,
    now_ms: u64,
    now: i64,
) -> (r: Result<(SessionRow, VerifyResponse), HubError>)
    requires
        old(pending).wf(),
    ensures
        final(pending).wf(),
        final(pending)@ == old(pending)@.remove(req.public_key@),
        match renewal_refusal(
            waiting(old(pending)@, req.public_key@),
            *req,
            user_key@,
            signed,
            now_ms,
        ) {
            Some(d) => refused(r, d),
            None => r matches Ok(x) && x.0.token@ == token@ && x.0.public_key@ == user_key@
                && x.0.created_at == now && x.1.token@ == token@ && x.1.scope@ == "member"@,
        },
{
    match take_challenge(pending, req, now_ms) {
        Ok(_) => {},
        Err(e) => return Err(e),
    }
    if !same(req.public_key.as_str(), user_key) {
        return Err(refuse(403, "Renew pubkey does not match authenticated identity"));
    }
    if !signed {
        return Err(refuse(401, "Invalid signature"));
    }
    Ok(
        (
            SessionRow {
                token: token.to_owned(),
                public_key: user_key.to_owned(),
                created_at: now,
            },
            VerifyResponse { token: token.to_owned(), scope: "member".to_owned() },
        ),
    )
}

/// The facts, but that no certification is asked for.
pub open spec fn asking_no_certification(f: VerifyFacts) -> VerifyFacts {
    VerifyFacts { settings: AuthSettings { cert_mode: None, ..f.settings }, ..f }
}

/// The facts, but that no security level is asked for.
pub open spec fn asking_no_level(f: VerifyFacts) -> VerifyFacts {
    VerifyFacts { settings: AuthSettings { min_security_level: None, ..f.settings }, ..f }
}

/// The facts, but that no work is asked for.
pub open spec fn asking_no_work(f: VerifyFacts) -> VerifyFacts {
    VerifyFacts { settings: AuthSettings { min_pow_level: None, ..f.settings }, ..f }
}

/// Where certifications are asked for, one that is signed, good, has not run out, says enough and
/// comes from an issuer that will do lets them pass, if its subject is the master key of the
/// bearer, or the key itself where the bearer brings no certificate of it.
pub proof fn a_certification_of_the_bearer_lets_them_pass(
    req: &VerifyRequest,
    f: &VerifyFacts,
    g: &VerifyFacts,
    key: &str,
    now: i64,
    r: Result<(), HubError>,
    without: Result<(), HubError>,
    i: int,
)
    requires
        call_ensures(pass_gate, (req, f, key, now), r),
        *g == asking_no_certification(*f),
        call_ensures(pass_gate, (req, g, key, now), without),
        without is Ok,
        req.certifications is Some,
        0 <= i < req.certifications->0@.len(),
        i < f.certs_signed@.len() && f.certs_signed@[i],
        ({
            let c = req.certifications->0@[i];
            &&& req.subkey_cert matches Some(s) ==> c.payload.subject_pubkey@ == s.master_pubkey@
            &&& req.subkey_cert is None ==> c.payload.subject_pubkey@ == req.public_key@
            &&& c.payload.standing@ == "good"@
            &&& now <= c.payload.expires_at
            &&& hex_bytes(c.signature@) is Some
            &&& f.cert_require.min_pow_level matches Some(least) ==> c.payload.pow_level is Some
                && c.payload.pow_level->0 >= least
            &&& f.cert_require.min_member_since_days matches Some(days) ==> now
                - c.payload.member_since >= days * 86400
            &&& f.settings.cert_mode matches Some(m) ==> m@ == "any"@ || (m@ == "trusted"@
                && exists|j: int|
                0 <= j < f.trusted_issuers@.len() && (#[trigger] f.trusted_issuers@[j]).pubkey@
                    == c.payload.issuer_pubkey@)
        }),
    ensures
        r is Ok,
{
    if f.settings.cert_mode is Some {
        let c = req.certifications->0@[i];
        assert(certs_of(*req)[i] == c);
        assert(admits(
            c,
            true,
            certified_key(*req),
            mode_of(f.settings),
            f.trusted_issuers@,
            f.cert_require,
            now,
        ));
    }
}

/// Where certifications are asked for and none of those that are brought is about the bearer,
/// good, in time, signed and from an issuer that will do, no one passes.
pub proof fn without_a_certification_of_the_bearer_no_one_passes(
    req: &VerifyRequest,
    f: &VerifyFacts,
    g: &VerifyFacts,
    key: &str,
    now: i64,
    r: Result<(), HubError>,
    without: Result<(), HubError>,
)
    requires
        call_ensures(pass_gate, (req, f, key, now), r),
        *g == asking_no_certification(*f),
        call_ensures(pass_gate, (req, g, key, now), without),
        f.settings.cert_mode is Some && f.settings.cert_mode->0@ != "none"@,
        req.certifications matches Some(certs) ==> forall|i: int|
            0 <= i < certs@.len() ==> ({
                let c = #[trigger] certs@[i];
                ||| req.subkey_cert is Some && c.payload.subject_pubkey@
                    != req.subkey_cert->0.master_pubkey@
                ||| req.subkey_cert is None && c.payload.subject_pubkey@ != req.public_key@
                ||| c.payload.standing@ != "good"@
                ||| c.payload.expires_at < now
                ||| i >= f.certs_signed@.len()
                ||| !f.certs_signed@[i]
                ||| f.settings.cert_mode->0@ != "any"@ && forall|j: int|
                    0 <= j < f.trusted_issuers@.len() ==> (#[trigger] f.trusted_issuers@[j]).pubkey@
                        != c.payload.issuer_pubkey@
            }),
    ensures
        r is Err,
        without is Ok ==> r->Err_0.status == 403 && r->Err_0.message@ == "cert_required"@,
        without is Err ==> r->Err_0@ == without->Err_0@,
{
    assert(!some_admits(
        certs_of(*req),
        f.certs_signed@,
        certified_key(*req),
        mode_of(f.settings),
        f.trusted_issuers@,
        f.cert_require,
        now,
    ));
}

/// One who is banned does not pass, and is told so before anything else; a ban of
/// someone else does not matter.
pub proof fn a_ban_lets_no_one_pass(
    req: &VerifyRequest,
    f: &VerifyFacts,
    key: &str,
    now: i64,
    r: Result<(), HubError>,
)
    requires
        call_ensures(pass_gate, (req, f, key, now), r),
    ensures
        (exists|i: int| 0 <= i < f.bans@.len() && (#[trigger] f.bans@[i]).target_public_key@ == key@)
            ==> r is Err && r->Err_0.status == 403 && r->Err_0.message@ == "User is banned"@,
        (forall|i: int|
            0 <= i < f.bans@.len() ==> (#[trigger] f.bans@[i]).target_public_key@ != key@)
            && f.settings.min_security_level is None && f.settings.min_pow_level is None
            && f.settings.cert_mode is None ==> r is Ok,
{
}

/// A security level that is asked for must be claimed and shown. One who does both passes as if
/// none were asked for.
pub proof fn the_security_level_must_be_shown(
    req: &VerifyRequest,
    f: &VerifyFacts,
    g: &VerifyFacts,
    key: &str,
    now: i64,
    r: Result<(), HubError>,
    without: Result<(), HubError>,
    least: nat,
)
    requires
        call_ensures(pass_gate, (req, f, key, now), r),
        *g == asking_no_level(*f),
        call_ensures(pass_gate, (req, g, key, now), without),
        f.settings.min_security_level is Some,
        unsigned_value(f.settings.min_security_level->0@, u32::MAX as nat) == Some(least),
    ensures
        least == 0 ==> (r is Ok <==> without is Ok),
        least > 0 && req.security_level is None ==> r is Err,
        least > 0 && req.security_level is Some && req.security_level->0 < least ==> r is Err
            && r->Err_0.status == 403,
        least > 0 && !f.level_proved ==> r is Err && r->Err_0.status == 403,
        req.security_level is Some && req.security_level->0 >= least && f.level_proved ==> (r is Ok
            <==> without is Ok) && (r is Err ==> r->Err_0@ == without->Err_0@),
        without is Err ==> r is Err,
{
}

/// Work that is asked for must be brought, be enough, and be shown. One who does so passes as if
/// none were asked for.
pub proof fn the_work_must_be_shown(
    req: &VerifyRequest,
    f: &VerifyFacts,
    g: &VerifyFacts,
    key: &str,
    now: i64,
    r: Result<(), HubError>,
    without: Result<(), HubError>,
    least: nat,
)
    requires
        call_ensures(pass_gate, (req, f, key, now), r),
        *g == asking_no_work(*f),
        call_ensures(pass_gate, (req, g, key, now), without),
        f.settings.min_pow_level is Some,
        unsigned_value(f.settings.min_pow_level->0@, u8::MAX as nat) == Some(least),
    ensures
        least == 0 ==> (r is Ok <==> without is Ok),
        least > 0 && req.pow_proof is None ==> r is Err && r->Err_0.status == 403,
        least > 0 && req.pow_proof is Some && req.pow_proof->0.level < least ==> r is Err
            && r->Err_0.status == 403,
        least > 0 && req.pow_proof is Some && unsigned_value(
            req.pow_proof->0.nonce@,
            u64::MAX as nat,
        ) is None ==> r is Err,
        least > 0 && !f.pow_proved ==> r is Err,
        req.pow_proof is Some && req.pow_proof->0.level >= least && unsigned_value(
            req.pow_proof->0.nonce@,
            u64::MAX as nat,
        ) is Some && f.pow_proved ==> (r is Ok <==> without is Ok) && (r is Err ==> r->Err_0@
            == without->Err_0@),
        without is Err ==> r is Err,
{
}

/// A setting that is no number asks for nothing.
pub proof fn an_unreadable_level_asks_for_nothing(setting: &Option<String>, max: u64, r: u64)
    requires
        call_ensures(read_level, (setting, max), r),
    ensures
        setting is None ==> r == 0,
        setting matches Some(s) ==> match unsigned_value(s@, max as nat) {
            Some(n) => r == n,
            None => r == 0,
        },
{
}

/// A challenge is answered in time, with the bytes that were handed out to the key, or not at
/// all; and whatever comes of it, it is used up, and no other challenge is.
pub proof fn a_challenge_is_answered_with_its_bytes(
    pending: &mut Table<String, PendingChallenge>,
    req: &VerifyRequest,
    now_ms: u64,
    r: Result<(), HubError>,
    other: Seq<char>,
)
    requires
        call_ensures(take_challenge, (pending, req, now_ms), r),
    ensures
        !final(pending)@.dom().contains(req.public_key@),
        other != req.public_key@ ==> (final(pending)@.dom().contains(other) <==> old(pending)@.dom().contains(other)),
        r is Ok ==> old(pending)@.dom().contains(req.public_key@),
        !old(pending)@.dom().contains(req.public_key@) ==> r is Err && r->Err_0.status == 401,
        old(pending)@.dom().contains(req.public_key@) ==> ({
            let p = old(pending)@[req.public_key@];
            &&& r is Ok <==> now_ms <= p.expires_at && hex_bytes(req.challenge@) == Some(
                p.challenge_bytes@,
            ) && hex_bytes(req.signature@) is Some
            &&& now_ms > p.expires_at ==> r->Err_0.status == 401 && r->Err_0.message@
                == "Challenge expired"@
            &&& now_ms <= p.expires_at && hex_bytes(req.challenge@) is Some && hex_bytes(
                req.challenge@,
            )->0 != p.challenge_bytes@ ==> r->Err_0.status == 401 && r->Err_0.message@
                == "Challenge mismatch"@
            &&& now_ms <= p.expires_at && hex_bytes(req.challenge@) is None ==> r->Err_0.status
                == 400
            &&& now_ms <= p.expires_at && hex_bytes(req.signature@) is None ==> r is Err
        }),
{
}

/// A challenge that was handed out can be answered for a minute with what was handed out, by the
/// key to which it was handed out.
pub proof fn a_fresh_challenge_can_be_answered(
    pending: &mut Table<String, PendingChallenge>,
    key: &str,
    bytes: Vec<u8>,
    handed_out: u64,
    out: ChallengeResponse,
    then: &mut Table<String, PendingChallenge>,
    req: &VerifyRequest,
    now_ms: u64,
    r: Result<(), HubError>,
)
    requires
        call_ensures(register_challenge, (pending, key, bytes, handed_out), out),
        handed_out <= u64::MAX - 60000,
        old(then)@ == final(pending)@,
        call_ensures(take_challenge, (then, req, now_ms), r),
        req.challenge@ == out.challenge@,
        hex_bytes(req.signature@) is Some,
        req.public_key@ == key@,
    ensures
        r is Ok <==> now_ms <= handed_out + 60000,
{
    hex_round_trip(bytes@);
}

/// Without a certificate someone is their key. With one that holds they are the account of its
/// master key where there is one, else their own account where it has no master yet, else the
/// master key. A certificate that does not hold, or is of another key, makes no one of them.
pub proof fn who_someone_is(
    users: &Vec<AccountRow>,
    key: &str,
    cert: &Option<SubkeyCert>,
    fault: &Option<String>,
    r: Result<Identity, HubError>,
    i: int,
)
    requires
        call_ensures(resolve_canonical_identity, (users, key, cert, fault), r),
    ensures
        cert is None ==> r is Ok && r->Ok_0.canonical@ == key@ && r->Ok_0.master is None,
        cert is Some && fault is Some ==> r is Err && r->Err_0.status == 401,
        cert is Some && cert->0.subkey_pubkey@ != key@ ==> r is Err && r->Err_0.status == 401,
        cert is Some && fault is None && cert->0.subkey_pubkey@ == key@ ==> r is Ok
            && r->Ok_0.master is Some && r->Ok_0.master->0@ == cert->0.master_pubkey@,
        cert is Some && fault is None && cert->0.subkey_pubkey@ == key@ && (forall|j: int|
            0 <= j < users@.len() ==> (#[trigger] users@[j]).master_pubkey is None
                && users@[j].public_key@ != key@) ==> r->Ok_0.canonical@ == cert->0.master_pubkey@,
        cert is Some && fault is None && cert->0.subkey_pubkey@ == key@ && (forall|j: int|
            0 <= j < users@.len() ==> (#[trigger] users@[j]).master_pubkey is None) && 0 <= i
            < users@.len() && users@[i].public_key@ == key@ ==> r->Ok_0.canonical@ == key@,
        cert is Some && fault is None && cert->0.subkey_pubkey@ == key@ && 0 <= i < users@.len()
            && users@[i].master_pubkey is Some && users@[i].master_pubkey->0@
            == cert->0.master_pubkey@ && (forall|j: int|
            0 <= j < users@.len() && (#[trigger] users@[j]).master_pubkey is Some
                && users@[j].master_pubkey->0@ == cert->0.master_pubkey@ ==> j == i)
            ==> r->Ok_0.canonical@ == users@[i].public_key@,
{
    if cert is Some {
        let master = cert->0.master_pubkey@;
        lemma_match_holds(users@, is_of_master(master));
        lemma_match_holds(users@, is_without_master(key@));
        if 0 <= i < users@.len() {
            assert(is_of_master(master)(users@[i]) == (opt_text(users@[i].master_pubkey) == Some(
                master,
            )));
            assert(is_without_master(key@)(users@[i]) == (users@[i].public_key@ == key@
                && users@[i].master_pubkey is None));
        }
    }
}

/// One who says that they are a bot comes in only where the account was invited as one.
pub proof fn a_bot_must_have_been_invited(
    req: &VerifyRequest,
    users: &Vec<AccountRow>,
    key: &str,
    now: i64,
    r: Result<Option<BotRegistration>, HubError>,
    i: int,
)
    requires
        call_ensures(register_bot, (req, users, key, now), r),
        0 <= i < users@.len() ==> users@[i].public_key@ == key@ && forall|j: int|
            0 <= j < users@.len() && (#[trigger] users@[j]).public_key@ == key@ ==> j == i,
        !(0 <= i < users@.len()) ==> forall|j: int|
            0 <= j < users@.len() ==> (#[trigger] users@[j]).public_key@ != key@,
    ensures
        req.is_bot != Some(true) ==> r is Ok && r->Ok_0 is None,
        req.is_bot == Some(true) ==> (r is Ok <==> 0 <= i < users@.len() && users@[i].is_bot == 1
            && (users@[i].approval_status@ == "bot_pending"@ || users@[i].approval_status@
            == "approved"@)),
        r is Err ==> r->Err_0.status == 403 && r->Err_0.message@ == "bot_not_invited"@,
        req.is_bot == Some(true) && r is Ok ==> r->Ok_0 is Some && r->Ok_0->0.public_key@ == key@
            && (r->Ok_0->0.profile is Some <==> req.bot_meta is Some),
{
    lemma_match_holds(users@, is_under(key@));
    if 0 <= i < users@.len() {
        assert(is_under(key@)(users@[i]));
    }
}

/// Whoever is let in answered the challenge of their key in time, signed it and is not banned.
/// The session is theirs: under their account's key, with the token that was drawn, from now on.
pub proof fn whoever_is_let_in_is_who_they_say(
    pending: &mut Table<String, PendingChallenge>,
    req: &VerifyRequest,
    f: &VerifyFacts,
    token: &str,
    now_ms: u64,
    now: i64,
    e: Entry,
)
    requires
        call_ensures(verify, (pending, req, f, token, now_ms, now), e),
        e.enrolment is Some,
    ensures
        old(pending)@.dom().contains(req.public_key@),
        now_ms <= old(pending)@[req.public_key@].expires_at,
        hex_bytes(req.challenge@) == Some(old(pending)@[req.public_key@].challenge_bytes@),
        f.signed,
        req.subkey_cert matches Some(c) ==> f.cert_fault is None && c.subkey_pubkey@
            == req.public_key@,
        forall|i: int|
            0 <= i < f.bans@.len() ==> (#[trigger] f.bans@[i]).target_public_key@
                != e.enrolment->0.session.public_key@,
        e.enrolment->0.session.token@ == token@,
        e.enrolment->0.session.created_at == now,
        e.enrolment->0.session.public_key@ == e.enrolment->0.account.public_key@,
        e.enrolment->0.account.last_seen_at == now,
        req.subkey_cert is None ==> e.enrolment->0.session.public_key@ == req.public_key@,
        !final(pending)@.dom().contains(req.public_key@),
{
    let who = identity_of(f.users@, req.public_key@, req.subkey_cert, opt_text(f.cert_fault))->Ok_0;
    lemma_match_holds(f.users@, is_under(who.0));
}

/// A user without a certificate who answers their challenge rightly, where nothing more is asked
/// for and no ban stands against them, is let in; no invitation is needed unless the hub asks
/// for one.
pub proof fn whoever_answers_rightly_is_let_in(
    pending: &mut Table<String, PendingChallenge>,
    req: &VerifyRequest,
    f: &VerifyFacts,
    token: &str,
    now_ms: u64,
    now: i64,
    e: Entry,
)
    requires
        call_ensures(verify, (pending, req, f, token, now_ms, now), e),
        old(pending)@.dom().contains(req.public_key@),
        now_ms <= old(pending)@[req.public_key@].expires_at,
        hex_bytes(req.challenge@) == Some(old(pending)@[req.public_key@].challenge_bytes@),
        hex_bytes(req.signature@) is Some,
        f.signed,
        req.subkey_cert is None,
        req.is_bot != Some(true),
        f.settings.min_security_level is None,
        f.settings.min_pow_level is None,
        f.settings.cert_mode is None,
        forall|i: int|
            0 <= i < f.bans@.len() ==> (#[trigger] f.bans@[i]).target_public_key@
                != req.public_key@,
    ensures
        e.enrolment is Some,
        e.bot is None,
        e.enrolment->0.session.public_key@ == req.public_key@,
        !f.settings.invite_only ==> e.step matches Ok(InviteStep::NotNeeded),
        f.settings.invite_only && (forall|i: int|
            0 <= i < f.user_roles@.len() ==> (#[trigger] f.user_roles@[i]).user_public_key@
                != req.public_key@) ==> match req.invite_code {
            Some(code) => e.step matches Ok(InviteStep::Use { code: c }) && c@ == code@,
            None => e.step is Err && e.step->Err_0.status == 403,
        },
        (exists|i: int|
            0 <= i < f.user_roles@.len() && (#[trigger] f.user_roles@[i]).user_public_key@
                == req.public_key@) ==> e.step matches Ok(InviteStep::NotNeeded),
{
}

/// A request that is not signed by its key leads to nothing, whatever else it brings.
pub proof fn an_unsigned_answer_leads_to_nothing(
    pending: &mut Table<String, PendingChallenge>,
    req: &VerifyRequest,
    f: &VerifyFacts,
    token: &str,
    now_ms: u64,
    now: i64,
    e: Entry,
)
    requires
        call_ensures(verify, (pending, req, f, token, now_ms, now), e),
        !f.signed,
    ensures
        e.enrolment is None,
        e.bot is None,
        e.step is Err,
        e.step->Err_0.status == 401 || e.step->Err_0.status == 400,
{
}

/// A newcomer gets an account of their own: first seen now, without a bot's mark and without
/// work, approved, or pending where the hub approves its members and has some already. Who was
/// there before keeps their account as it was, but that they were seen now.
pub proof fn newcomers_and_members_get_their_account(
    pending: &mut Table<String, PendingChallenge>,
    req: &VerifyRequest,
    f: &VerifyFacts,
    token: &str,
    now_ms: u64,
    now: i64,
    e: Entry,
    i: int,
)
    requires
        call_ensures(verify, (pending, req, f, token, now_ms, now), e),
        e.enrolment is Some,
        req.subkey_cert is None,
        0 <= i < f.users@.len() ==> f.users@[i].public_key@ == req.public_key@ && forall|j: int|
            0 <= j < f.users@.len() && (#[trigger] f.users@[j]).public_key@ == req.public_key@
                ==> j == i,
        !(0 <= i < f.users@.len()) ==> forall|j: int|
            0 <= j < f.users@.len() ==> (#[trigger] f.users@[j]).public_key@ != req.public_key@,
    ensures
        !(0 <= i < f.users@.len()) ==> ({
            let a = e.enrolment->0.account;
            &&& a.public_key@ == req.public_key@
            &&& a.first_seen_at == now
            &&& a.last_seen_at == now
            &&& a.is_bot == 0
            &&& a.pow_level == 0
            &&& a.master_pubkey is None
            &&& a.approval_status@ == if f.settings.require_approval is Some
                && f.settings.require_approval->0@ == "true"@ && f.user_count > 0 {
                "pending"@
            } else {
                "approved"@
            }
        }),
        0 <= i < f.users@.len() ==> ({
            let a = e.enrolment->0.account;
            &&& a.public_key@ == f.users@[i].public_key@
            &&& a.first_seen_at == f.users@[i].first_seen_at
            &&& a.last_seen_at == now
            &&& a.pow_level == f.users@[i].pow_level
            &&& opt_text(a.master_pubkey) == opt_text(f.users@[i].master_pubkey)
            &&& req.is_bot != Some(true) ==> a.approval_status@ == f.users@[i].approval_status@
                && a.is_bot == f.users@[i].is_bot
            &&& req.is_bot == Some(true) && req.bot_meta is Some ==> a.approval_status@
                == "approved"@ && a.is_bot == 1
        }),
{
    lemma_match_holds(f.users@, is_under(req.public_key@));
    if 0 <= i < f.users@.len() {
        assert(is_under(req.public_key@)(f.users@[i]));
    }
}

/// Who has a role already gets none; any other gets the role of everyone, and the role of the
/// owner too where no one has it.
pub proof fn newcomers_get_their_roles(
    roles: &Vec<UserRole>,
    key: &str,
    now: i64,
    r: Vec<UserRole>,
    i: int,
)
    requires
        call_ensures(assign_roles, (roles, key, now), r),
    ensures
        (exists|j: int| 0 <= j < roles@.len() && (#[trigger] roles@[j]).user_public_key@ == key@)
            ==> r@.len() == 0,
        (forall|j: int| 0 <= j < roles@.len() ==> (#[trigger] roles@[j]).user_public_key@ != key@)
            ==> r@.len() > 0 && r@[r@.len() - 1].role_id@ == "builtin-everyone"@,
        (forall|j: int|
            0 <= j < roles@.len() ==> (#[trigger] roles@[j]).user_public_key@ != key@
                && roles@[j].role_id@ != "builtin-owner"@) ==> r@.len() == 2 && r@[0].role_id@
            == "builtin-owner"@,
        (forall|j: int| 0 <= j < roles@.len() ==> (#[trigger] roles@[j]).user_public_key@ != key@)
            && (exists|j: int|
            0 <= j < roles@.len() && (#[trigger] roles@[j]).role_id@ == "builtin-owner"@) ==> r@.len()
            == 1,
        0 <= i < r@.len() ==> r@[i].user_public_key@ == key@ && r@[i].assigned_at == now,
{
}

/// Where puzzles are asked for, only a token that was given to the key, has not run out and was
/// not used does, and it is used up; where they are not, nothing is asked for and nothing used
/// up.
pub proof fn a_puzzle_is_solved_once_by_its_key(
    req: &VerifyRequest,
    settings: &AuthSettings,
    tokens: &Vec<ChallengeToken>,
    now: i64,
    r: Result<Option<String>, HubError>,
    i: int,
)
    requires
        call_ensures(check_challenge_token, (req, settings, tokens, now), r),
    ensures
        settings.challenge_mode is None || settings.challenge_mode->0@ == "off"@ ==> r is Ok
            && r->Ok_0 is None,
        settings.challenge_mode is Some && settings.challenge_mode->0@ != "off"@
            && req.challenge_token is None ==> r is Err && r->Err_0.status == 403,
        settings.challenge_mode is Some && settings.challenge_mode->0@ != "off"@ && (forall|j: int|
            0 <= j < tokens@.len() ==> opt_text(req.challenge_token) != Some(
                (#[trigger] tokens@[j]).token@,
            )) ==> r is Err && r->Err_0.status == 403,
        settings.challenge_mode is Some && settings.challenge_mode->0@ != "off"@ && 0 <= i
            < tokens@.len() && opt_text(req.challenge_token) == Some(tokens@[i].token@) && (forall|
            j: int,
        |
            0 <= j < tokens@.len() && (#[trigger] tokens@[j]).token@ == tokens@[i].token@ ==> j
                == i) ==> (r is Ok <==> tokens@[i].consumed_at is None && tokens@[i].expires_at
            >= now && tokens@[i].pubkey@ == req.public_key@) && (r is Ok ==> r->Ok_0 is Some
            && r->Ok_0->0@ == tokens@[i].token@) && (r is Err ==> r->Err_0.status == 403),
{
    if req.challenge_token is Some {
        let t = req.challenge_token->0@;
        lemma_match_holds(tokens@, is_token(t));
        if 0 <= i < tokens@.len() && tokens@[i].token@ == t {
            assert(is_token(t)(tokens@[i]));
        }
    }
}

/// One who is let in gets the session that was opened for them. It reaches only into the lobby
/// where there is one and they have shown less work than is asked for. A puzzle that is not
/// solved keeps the answer from them.
pub proof fn a_session_reaches_as_far_as_the_work(
    req: &VerifyRequest,
    enrolment: &Enrolment,
    settings: &AuthSettings,
    user_roles: &Vec<UserRole>,
    tokens: &Vec<ChallengeToken>,
    now: i64,
    c: Completion,
    checked: Result<Option<String>, HubError>,
    least: nat,
)
    requires
        call_ensures(complete_verify, (req, enrolment, settings, user_roles, tokens, now), c),
        call_ensures(check_challenge_token, (req, settings, tokens, now), checked),
    ensures
        c.answer is Ok <==> checked is Ok,
        checked is Err ==> c.answer->Err_0@ == checked->Err_0@ && c.used_token is None,
        checked matches Ok(used) ==> opt_text(c.used_token) == opt_text(used),
        c.answer matches Ok(a) ==> a.token@ == enrolment.session.token@ && (a.scope@ == "lobby"@
            || a.scope@ == "member"@),
        c.answer is Ok && settings.min_security_level is None ==> c.answer->Ok_0.scope@
            == "member"@,
        c.answer is Ok && settings.lobby_enabled is Some && settings.lobby_enabled->0@ != "1"@
            ==> c.answer->Ok_0.scope@ == "member"@,
        c.answer is Ok && (settings.lobby_enabled is None || settings.lobby_enabled->0@ == "1"@)
            && settings.min_security_level is Some && unsigned_value(
            settings.min_security_level->0@,
            u32::MAX as nat,
        ) == Some(least) && 0 <= enrolment.account.pow_level <= u32::MAX ==> c.answer->Ok_0.scope@
            == if enrolment.account.pow_level < least {
            "lobby"@
        } else {
            "member"@
        },
{
}

/// A session is renewed only for the user who has it, on their own signed answer to a challenge;
/// the new one is theirs, and full.
pub proof fn only_the_user_renews_their_session(
    pending: &mut Table<String, PendingChallenge>,
    user_key: &str,
    req: &VerifyRequest,
    signed: bool,
    token: &str,
    now_ms: u64,
    now: i64,
    r: Result<(SessionRow, VerifyResponse), HubError>,
)
    requires
        call_ensures(renew, (pending, user_key, req, signed, token, now_ms, now), r),
    ensures
        r is Ok <==> req.public_key@ == user_key@ && signed && old(pending)@.dom().contains(
            req.public_key@,
        ) && now_ms <= old(pending)@[req.public_key@].expires_at && hex_bytes(req.challenge@)
            == Some(old(pending)@[req.public_key@].challenge_bytes@) && hex_bytes(req.signature@)
            is Some,
        r matches Ok(x) ==> x.0.public_key@ == user_key@ && x.0.token@ == token@ && x.0.created_at
            == now && x.1.token@ == token@ && x.1.scope@ == "member"@,
        r is Err && old(pending)@.dom().contains(req.public_key@) && now_ms <= old(pending)@[req.public_key@].expires_at && hex_bytes(req.challenge@) == Some(
            old(pending)@[req.public_key@].challenge_bytes@,
        ) && hex_bytes(req.signature@) is Some ==> r->Err_0.status == if req.public_key@
            != user_key@ {
            403int
        } else {
            401
        },
        !final(pending)@.dom().contains(req.public_key@),
{
}

/// The signature of an answer is held against the key of the request and the challenge that it
/// answers.
pub proof fn answers_are_held_against_their_key(req: &VerifyRequest, c: Option<SignatureClaim>)
    requires
        call_ensures(signature_claim, (req,), c),
    ensures
        c is Some <==> hex_bytes(req.challenge@) is Some && hex_bytes(req.signature@) is Some,
        c matches Some(x) ==> x.key@ == req.public_key@ && Some(x.message@) == hex_bytes(
            req.challenge@,
        ) && Some(x.signature@) == hex_bytes(req.signature@),
{
}

/// The work that is to be shown is the work that the request claims: none where it claims none.
pub proof fn the_work_claimed_is_the_work_to_show(
    req: &VerifyRequest,
    level: LevelClaim,
    work: Option<LevelClaim>,
)
    requires
        call_ensures(security_claim, (req,), level),
        call_ensures(pow_claim, (req,), work),
    ensures
        level.level == match req.security_level {
            Some(n) => n,
            None => 0u32,
        },
        level.nonce == match req.security_nonce {
            Some(n) => n,
            None => 0u64,
        },
        req.pow_proof is None ==> work is None,
        work matches Some(w) ==> req.pow_proof is Some && w.level == req.pow_proof->0.level
            && unsigned_value(req.pow_proof->0.nonce@, u64::MAX as nat) == Some(w.nonce as nat),
        req.pow_proof matches Some(p) ==> (work is Some <==> unsigned_value(
            p.nonce@,
            u64::MAX as nat,
        ) is Some),
{
}

/// A challenge of 32 bytes is handed out to the key that asks, for a minute, in place of an
/// earlier one; the challenges of others stay.
pub proof fn a_challenge_is_for_the_one_who_asks(
    pending: &mut Table<String, PendingChallenge>,
    req: &ChallengeRequest,
    now_ms: u64,
    r: ChallengeResponse,
    other: Seq<char>,
)
    requires
        now_ms <= u64::MAX - 60000,
        call_ensures(challenge, (pending, req, now_ms), r),
    ensures
        r.challenge@.len() == 64,
        final(pending)@.dom().contains(req.public_key@),
        hex_bytes(r.challenge@) == Some(final(pending)@[req.public_key@].challenge_bytes@),
        final(pending)@[req.public_key@].expires_at == now_ms + 60000,
        other != req.public_key@ ==> (final(pending)@.dom().contains(other) <==> old(pending)@.dom().contains(other)) && (old(pending)@.dom().contains(other) ==> final(pending)@[other] == old(pending)@[other]),
{
    hex_round_trip(final(pending)@[req.public_key@].challenge_bytes@);
}

} // verus!
