use voxply::hub::auth::{
    assign_roles, challenge, complete_verify, pow_claim, register_challenge, renew,
    resolve_canonical_identity, security_claim, signature_claim, verify, AccountRow, AuthSettings,
    ChallengeRequest, ChallengeToken, Entry, InviteStep, PowProof, SubkeyCert, UserRole,
    VerifyFacts, VerifyRequest,
};
use voxply::hub::bots::BotMeta;
use voxply::hub::cert_worker::{tick, WorkerSettings, WorkerUser};
use voxply::hub::certs::{
    admin_issue, admin_list, admin_revoke, certification_admits, certification_claim, check_expiry,
    issue_cert_for, list_user_certs, load_cert_mode, load_cert_require, load_cert_requirement, load_trusted_issuers,
    patch_cert_settings, record_issuance, revoke_cert_for, verify_certification, CertPayload,
    CertRequire, CertSettingsPatch, Certification, IssuanceDbRow, LedgerEntry, MemberStanding,
    StoredCert, TrustedIssuer,
};
use voxply::hub::config::{
    command_of, port_from_env, tls_config_from_env, Command, DEFAULT_HTTP_PORT,
    DEFAULT_VOICE_UDP_PORT,
};
use voxply::hub::health::{health, info, Branding, InfoSettings};
use voxply::hub::migrations::{goes_on, run, Seeded};
use voxply::hub::moderation::{
    ban_user, channel_ban, channel_unban, get_talk_power, is_banned, is_channel_banned, is_muted,
    is_voice_muted, kick_user, list_bans, list_channel_bans, list_mutes, list_voice_mutes,
    mute_user, set_talk_power, timeout_user, unban_user, unmute_user, voice_mute, voice_unmute,
    BanRequest, BanResponse, ChannelBanRequest, KickRequest, MuteRequest, SetTalkPowerRequest,
    TimeoutRequest, VoiceMuteRequest,
};
use voxply::hub::payload::{JsonValue, Payload};
use voxply::hub::permissions::{user_permissions, RolePermission, RoleRow, UserPermissions};
use voxply::hub::state::PendingChallenge;
use voxply::hub::{claim_over, db_error, HubError};
use voxply::table::Table;

fn text(s: &str) -> String {
    s.to_string()
}

fn role(id: &str, priority: i64) -> RoleRow {
    RoleRow { id: text(id), name: text(id), priority, created_at: 0 }
}

fn holding(permissions: &[&str], priority: i64) -> UserPermissions {
    let grants: Vec<RolePermission> = permissions
        .iter()
        .map(|p| RolePermission { role_id: text("r"), permission: text(p) })
        .collect();
    user_permissions(vec![role("r", priority)], &grants)
}

fn no_one() -> UserPermissions {
    user_permissions(vec![], &vec![])
}

fn refused<T>(r: Result<T, HubError>, status: u16, message: &str) {
    let e = r.err().unwrap();
    assert_eq!(e.message, message);
    assert_eq!(e.status, status);
}

#[test]
fn permissions_are_those_of_all_roles_together() {
    let grants = vec![
        RolePermission { role_id: text("a"), permission: text("send_messages") },
        RolePermission { role_id: text("b"), permission: text("kick_members") },
        RolePermission { role_id: text("c"), permission: text("admin") },
    ];
    let p = user_permissions(vec![role("a", 1), role("b", 7)], &grants);
    assert!(p.has("send_messages"));
    assert!(p.has("kick_members"));
    assert!(!p.has("ban_members"));
    assert_eq!(p.max_priority, 7);
    assert_eq!(no_one().max_priority, 0);
    refused(p.require("ban_members"), 403, "Missing permission: ban_members");
    assert!(holding(&["admin"], 0).has("anything at all"));
}

#[test]
fn only_someone_lower_is_moderated() {
    let mod5 = holding(&["ban_members", "kick_members", "mute_members", "timeout_members"], 5);
    let req = BanRequest { target_public_key: text("t"), reason: Some(text("spam")) };
    refused(
        ban_user("me", &mod5, &mod5, &req, 9),
        403,
        "Cannot moderate a user with equal or higher priority",
    );
    refused(ban_user("me", &no_one(), &no_one(), &req, 9), 403, "Missing permission: ban_members");
    let b = ban_user("me", &mod5, &no_one(), &req, 9).ok().unwrap();
    assert_eq!(b.ban.banned_by, "me");
    assert_eq!(b.ban.created_at, 9);
    assert_eq!(b.end_sessions_of, "t");
    assert_eq!(b.event.event_type, "member.banned");
    assert_eq!(b.event.target.as_deref(), Some("t"));
    match b.event.payload {
        Payload::Object(f) => {
            assert_eq!(f[0].key, "reason");
            assert!(matches!(&f[0].value, JsonValue::Text(s) if s == "spam"));
        }
        Payload::Other(_) => panic!("an object was expected"),
    }
    let k = KickRequest { target_public_key: text("t") };
    let k = kick_user("me", &mod5, &no_one(), &k).ok().unwrap();
    assert_eq!(k.end_sessions_of, "t");
    assert_eq!(k.event.event_type, "member.kicked");
}

#[test]
fn bans_and_mutes_hold_until_they_are_lifted() {
    let m = holding(&["ban_members", "mute_members", "timeout_members"], 5);
    let ban = |t: &str| BanResponse {
        target_public_key: text(t),
        banned_by: text("me"),
        reason: None,
        created_at: 1,
    };
    let mut bans = vec![ban("a"), ban("b")];
    assert!(is_banned(&bans, "a"));
    refused(unban_user(&no_one(), &mut bans, "a"), 403, "Missing permission: ban_members");
    assert_eq!(unban_user(&m, &mut bans, "a").ok(), Some(204));
    assert!(!is_banned(&bans, "a"));
    assert!(is_banned(&bans, "b"));
    assert_eq!(list_bans(&m, bans).ok().unwrap().len(), 1);

    let req = MuteRequest { target_public_key: text("t"), reason: None };
    let mute = mute_user("me", &m, &no_one(), &req, 10).ok().unwrap();
    assert!(mute.expires_at.is_none());
    let req = TimeoutRequest { target_public_key: text("u"), reason: None, duration_seconds: 60 };
    let timeout = timeout_user("me", &m, &no_one(), &req, 10).ok().unwrap();
    assert_eq!(timeout.expires_at, Some(70));
    let mut mutes = vec![mute, timeout];
    assert!(is_muted(&mutes, "t", 1_000_000));
    assert!(is_muted(&mutes, "u", 69));
    assert!(!is_muted(&mutes, "u", 70));
    assert_eq!(unmute_user(&m, &mut mutes, "t").ok(), Some(204));
    assert!(!is_muted(&mutes, "t", 11));
    assert_eq!(list_mutes(&m, mutes).ok().unwrap().len(), 1);

    let req = VoiceMuteRequest { target_public_key: text("t"), reason: None };
    let mut voice = vec![voice_mute("me", &m, &no_one(), &req, 10).ok().unwrap()];
    assert!(is_voice_muted(&voice, "t"));
    assert_eq!(voice_unmute(&m, &mut voice, "t").ok(), Some(204));
    assert!(!is_voice_muted(&voice, "t"));
    assert_eq!(list_voice_mutes(&m, voice).ok().unwrap().len(), 0);
}

#[test]
fn a_channel_ban_holds_in_its_channel() {
    let m = holding(&["mute_members"], 5);
    let req = ChannelBanRequest { target_public_key: text("t"), reason: None };
    let bans = vec![
        channel_ban("me", &m, &no_one(), "c1", &req, 10).ok().unwrap(),
        channel_ban("me", &m, &no_one(), "c2", &req, 11).ok().unwrap(),
    ];
    assert!(is_channel_banned(&bans, "c1", "t"));
    assert!(!is_channel_banned(&bans, "c3", "t"));
    assert_eq!(list_channel_bans(&m, &bans, "c2").ok().unwrap()[0].created_at, 11);
    let left = channel_unban(&m, &bans, "c1", "t").ok().unwrap();
    assert_eq!(left.len(), 1);
    assert!(!is_channel_banned(&left, "c1", "t"));
    refused(channel_unban(&no_one(), &bans, "c1", "t"), 403, "Missing permission: mute_members");
}

#[test]
fn talk_power_is_zero_until_an_admin_sets_it() {
    assert_eq!(get_talk_power("c", None).min_talk_power, 0);
    assert_eq!(get_talk_power("c", Some(4)).min_talk_power, 4);
    let req = SetTalkPowerRequest { min_talk_power: 4 };
    refused(set_talk_power(&no_one(), "c", &req), 403, "Missing permission: admin");
    let t = set_talk_power(&holding(&["admin"], 0), "c", &req).ok().unwrap();
    assert_eq!(t.channel_id, "c");
    assert_eq!(t.min_talk_power, 4);
}

const NOW: i64 = 1_700_000_000;

fn settings() -> AuthSettings {
    AuthSettings {
        min_security_level: None,
        min_pow_level: None,
        cert_mode: None,
        require_approval: None,
        challenge_mode: None,
        lobby_enabled: None,
        invite_only: false,
    }
}

fn facts() -> VerifyFacts {
    VerifyFacts {
        signed: true,
        cert_fault: None,
        level_proved: true,
        pow_proved: true,
        certs_signed: vec![],
        users: vec![],
        user_count: 0,
        user_roles: vec![],
        bans: vec![],
        settings: settings(),
        trusted_issuers: vec![],
        cert_require: CertRequire { min_pow_level: None, min_member_since_days: None },
    }
}

fn request() -> VerifyRequest {
    VerifyRequest {
        public_key: text("device"),
        challenge: text("00ff10"),
        signature: text("abcd"),
        subkey_cert: None,
        is_bot: None,
        bot_meta: None,
        security_nonce: None,
        security_level: None,
        pow_proof: None,
        certifications: None,
        invite_code: None,
        challenge_token: None,
    }
}

#[test]
fn a_signature_is_held_against_what_was_signed() {
    let c = signature_claim(&request()).unwrap();
    assert_eq!(c.key, "device");
    assert_eq!(c.message, vec![0x00, 0xff, 0x10]);
    assert_eq!(c.signature, vec![0xab, 0xcd]);
    assert!(signature_claim(&VerifyRequest { challenge: text("0"), ..request() }).is_none());
    assert!(signature_claim(&VerifyRequest { signature: text("xy"), ..request() }).is_none());
    let c = certification_claim(&cert_for("me", "them", "good"), "{\"a\":1}").unwrap();
    assert_eq!((c.key.as_str(), c.signature), ("them", vec![0]));
    assert_eq!(c.message, b"{\"a\":1}".to_vec());
    assert!(claim_over("k", b"m", "0").is_none());
}

fn account(key: &str, master: Option<&str>, status: &str, is_bot: i64) -> AccountRow {
    AccountRow {
        public_key: text(key),
        first_seen_at: 5,
        last_seen_at: 6,
        approval_status: text(status),
        master_pubkey: master.map(|m| m.to_string()),
        is_bot,
        pow_level: 0,
    }
}

fn waiting() -> Table<String, PendingChallenge> {
    let mut pending: Table<String, PendingChallenge> = Table::new();
    register_challenge(&mut pending, "device", vec![0, 255, 16], 1000);
    pending
}

fn answer(req: &VerifyRequest, f: &VerifyFacts) -> Entry {
    verify(&mut waiting(), req, f, "tok", 2000, NOW)
}

#[test]
fn a_challenge_is_random_and_handed_out_in_hex() {
    let mut pending: Table<String, PendingChallenge> = Table::new();
    let req = ChallengeRequest { public_key: text("k") };
    let a = challenge(&mut pending, &req, 1000).challenge;
    let b = challenge(&mut pending, &req, 1000).challenge;
    assert_eq!(a.len(), 64);
    assert_ne!(a, b);
    assert_eq!(pending.len(), 1);
    let p = pending.get(&text("k")).unwrap();
    assert_eq!(p.expires_at, 61_000);
    assert_eq!(p.challenge_bytes.len(), 32);
    let c = register_challenge(&mut pending, "x", vec![0, 255, 16], 5);
    assert_eq!(c.challenge, "00ff10");
}

#[test]
fn an_answer_is_held_against_its_challenge() {
    let f = facts();
    let mut pending = waiting();
    let mut other = request();
    other.public_key = text("stranger");
    refused(
        verify(&mut pending, &other, &f, "t", 2000, NOW).step,
        401,
        "No pending challenge for this key",
    );
    refused(verify(&mut pending, &request(), &f, "t", 61_001, NOW).step, 401, "Challenge expired");
    refused(
        verify(&mut pending, &request(), &f, "t", 2000, NOW).step,
        401,
        "No pending challenge for this key",
    );
    let mut req = request();
    req.challenge = text("0g");
    refused(answer(&req, &f).step, 400, "Invalid challenge hex");
    req.challenge = text("00ff11");
    refused(answer(&req, &f).step, 401, "Challenge mismatch");
    req.challenge = text("00FF10");
    req.signature = text("abc");
    refused(answer(&req, &f).step, 400, "Invalid signature hex");
    let mut f = facts();
    f.signed = false;
    refused(answer(&request(), &f).step, 401, "Invalid signature");
}

#[test]
fn the_first_to_come_is_approved_and_owns_the_hub() {
    let mut f = facts();
    f.settings.require_approval = Some(text("true"));
    let e = answer(&request(), &f);
    assert!(matches!(e.step, Ok(InviteStep::NotNeeded)));
    let x = e.enrolment.unwrap();
    assert_eq!(x.account.public_key, "device");
    assert_eq!(x.account.approval_status, "approved");
    assert_eq!(x.account.first_seen_at, NOW);
    assert_eq!(x.session.token, "tok");
    let c = complete_verify(&request(), &x, &f.settings, &vec![], &vec![], NOW);
    let ids: Vec<&str> = c.roles.iter().map(|r| r.role_id.as_str()).collect();
    assert_eq!(ids, vec!["builtin-owner", "builtin-everyone"]);
    let a = c.answer.ok().unwrap();
    assert_eq!(a.token, "tok");
    assert_eq!(a.scope, "member");

    f.user_count = 1;
    let x = answer(&request(), &f).enrolment.unwrap();
    assert_eq!(x.account.approval_status, "pending");
    let owner = UserRole {
        user_public_key: text("owner"),
        role_id: text("builtin-owner"),
        assigned_at: 1,
    };
    let roles = assign_roles(&vec![owner], "device", NOW);
    assert_eq!(roles.len(), 1);
    assert_eq!(roles[0].role_id, "builtin-everyone");
}

#[test]
fn devices_of_one_master_are_one_user() {
    let cert = |key: &str| {
        Some(SubkeyCert { master_pubkey: text("master"), subkey_pubkey: text(key) })
    };
    let none: Vec<AccountRow> = vec![];
    let i = resolve_canonical_identity(&none, "k", &None, &None).ok().unwrap();
    assert_eq!(i.canonical, "k");
    assert!(i.master.is_none());
    let i = resolve_canonical_identity(&none, "k", &cert("k"), &None).ok().unwrap();
    assert_eq!(i.canonical, "master");
    assert_eq!(i.master.as_deref(), Some("master"));
    let legacy = vec![account("k", None, "approved", 0)];
    let i = resolve_canonical_identity(&legacy, "k", &cert("k"), &None).ok().unwrap();
    assert_eq!(i.canonical, "k");
    let paired = vec![account("k", Some("master"), "approved", 0)];
    let one = resolve_canonical_identity(&paired, "k", &cert("k"), &None).ok().unwrap();
    let two = resolve_canonical_identity(&paired, "k2", &cert("k2"), &None).ok().unwrap();
    assert_eq!(one.canonical, "k");
    assert_eq!(two.canonical, "k");
    refused(
        resolve_canonical_identity(&none, "k", &cert("other"), &None),
        401,
        "Cert subkey_pubkey doesn't match auth pubkey",
    );
    refused(
        resolve_canonical_identity(&none, "k", &cert("k"), &Some(text("expired"))),
        401,
        "Invalid cert: expired",
    );
}

#[test]
fn an_account_keeps_its_master_key() {
    let mut f = facts();
    f.users = vec![account("device", Some("first"), "approved", 0)];
    f.user_count = 1;
    let x = answer(&request(), &f).enrolment.unwrap();
    assert_eq!(x.account.master_pubkey.as_deref(), Some("first"));
    assert_eq!(x.account.first_seen_at, 5);
    assert_eq!(x.account.last_seen_at, NOW);
    f.users = vec![account("device", None, "approved", 0)];
    let mut req = request();
    req.subkey_cert = Some(SubkeyCert { master_pubkey: text("m"), subkey_pubkey: text("device") });
    let x = answer(&req, &f).enrolment.unwrap();
    assert_eq!(x.account.master_pubkey.as_deref(), Some("m"));
    assert_eq!(x.session.public_key, "device");
}

#[test]
fn a_bot_must_have_been_invited() {
    let mut req = request();
    req.is_bot = Some(true);
    let mut f = facts();
    refused(answer(&req, &f).step, 403, "bot_not_invited");
    f.users = vec![account("device", None, "bot_pending", 0)];
    refused(answer(&req, &f).step, 403, "bot_not_invited");
    f.users = vec![account("device", None, "pending", 1)];
    refused(answer(&req, &f).step, 403, "bot_not_invited");
    f.users = vec![account("device", None, "bot_pending", 1)];
    let e = answer(&req, &f);
    assert!(e.bot.unwrap().profile.is_none());
    assert_eq!(e.enrolment.unwrap().account.approval_status, "bot_pending");
    req.bot_meta = Some(BotMeta {
        name: text("Robo"),
        avatar_url: None,
        description: None,
        webhook_url: None,
        homepage_url: None,
        capabilities: Some(vec![text("read_messages")]),
        commands: None,
    });
    let e = answer(&req, &f);
    let b = e.bot.unwrap();
    assert!(b.commands.is_none());
    assert_eq!(b.profile.unwrap().capabilities, "[\"read_messages\"]");
    assert_eq!(e.enrolment.unwrap().account.approval_status, "approved");
}

#[test]
fn the_gate_asks_in_order() {
    let mut f = facts();
    f.bans = vec![BanResponse {
        target_public_key: text("device"),
        banned_by: text("x"),
        reason: None,
        created_at: 0,
    }];
    let e = answer(&request(), &f);
    assert!(e.enrolment.is_none());
    refused(e.step, 403, "User is banned");

    let mut f = facts();
    f.settings.min_security_level = Some(text("20"));
    refused(answer(&request(), &f).step, 403, "Security level 0 is below minimum 20");
    let mut req = request();
    req.security_level = Some(21);
    req.security_nonce = Some(9);
    f.level_proved = false;
    refused(answer(&req, &f).step, 403, "Invalid security level proof");
    f.level_proved = true;
    assert!(answer(&req, &f).step.is_ok());
    let c = security_claim(&req);
    assert_eq!((c.nonce, c.level), (9, 21));

    let mut f = facts();
    f.settings.min_pow_level = Some(text("8"));
    refused(answer(&request(), &f).step, 403, "pow_required");
    let mut req = request();
    req.pow_proof = Some(PowProof { nonce: text("12"), level: 7 });
    refused(answer(&req, &f).step, 403, "pow_required");
    req.pow_proof = Some(PowProof { nonce: text("x"), level: 8 });
    refused(answer(&req, &f).step, 400, "Invalid pow_proof nonce");
    assert!(pow_claim(&req).is_none());
    req.pow_proof = Some(PowProof { nonce: text("12"), level: 8 });
    f.pow_proved = false;
    refused(answer(&req, &f).step, 403, "pow_required");
    f.pow_proved = true;
    assert!(answer(&req, &f).step.is_ok());
    let c = pow_claim(&req).unwrap();
    assert_eq!((c.nonce, c.level), (12, 8));

    let mut f = facts();
    f.settings.cert_mode = Some(text("any"));
    refused(answer(&request(), &f).step, 403, "cert_required");
    let mut req = request();
    req.certifications = Some(vec![cert_for("device", "hub", "good")]);
    refused(answer(&req, &f).step, 403, "cert_required");
    f.certs_signed = vec![true];
    assert!(answer(&req, &f).step.is_ok());
}

#[test]
fn an_invitation_is_asked_of_newcomers_only() {
    let mut f = facts();
    f.settings.invite_only = true;
    let e = answer(&request(), &f);
    assert!(e.enrolment.is_some());
    refused(e.step, 403, "This hub requires an invite code");
    let mut req = request();
    req.invite_code = Some(text("WELCOME"));
    assert!(matches!(answer(&req, &f).step, Ok(InviteStep::Use { code }) if code == "WELCOME"));
    f.user_roles = vec![UserRole {
        user_public_key: text("device"),
        role_id: text("builtin-everyone"),
        assigned_at: 1,
    }];
    assert!(matches!(answer(&request(), &f).step, Ok(InviteStep::NotNeeded)));
}

#[test]
fn a_puzzle_token_is_good_once_and_for_one_key() {
    let x = answer(&request(), &facts()).enrolment.unwrap();
    let mut s = settings();
    s.challenge_mode = Some(text("math"));
    let token = |key: &str, expires_at: i64, consumed_at: Option<i64>| ChallengeToken {
        token: text("ct"),
        pubkey: text(key),
        issued_at: 0,
        expires_at,
        consumed_at,
    };
    let mut req = request();
    let none: Vec<UserRole> = vec![];
    let go = |req: &VerifyRequest, t: Vec<ChallengeToken>| {
        complete_verify(req, &x, &s, &none, &t, NOW)
    };
    refused(go(&req, vec![]).answer, 403, "Challenge token required");
    req.challenge_token = Some(text("ct"));
    let c = go(&req, vec![]);
    assert_eq!(c.roles.len(), 2);
    refused(c.answer, 403, "Invalid challenge token");
    refused(go(&req, vec![token("device", NOW, Some(1))]).answer, 403, "Challenge token already used");
    refused(go(&req, vec![token("device", NOW - 1, None)]).answer, 403, "Challenge token expired");
    refused(go(&req, vec![token("other", NOW, None)]).answer, 403, "Challenge token pubkey mismatch");
    let c = go(&req, vec![token("device", NOW, None)]);
    assert_eq!(c.used_token.as_deref(), Some("ct"));
    assert!(c.answer.is_ok());
}

#[test]
fn too_little_work_leads_to_the_lobby() {
    let x = answer(&request(), &facts()).enrolment.unwrap();
    let mut s = settings();
    s.min_security_level = Some(text("1"));
    let none: Vec<UserRole> = vec![];
    let scope = |s: &AuthSettings| {
        complete_verify(&request(), &x, s, &none, &vec![], NOW).answer.ok().unwrap().scope
    };
    assert_eq!(scope(&s), "lobby");
    s.lobby_enabled = Some(text("0"));
    assert_eq!(scope(&s), "member");
    s.lobby_enabled = Some(text("1"));
    assert_eq!(scope(&s), "lobby");
    s.min_security_level = Some(text("0"));
    assert_eq!(scope(&s), "member");
}

#[test]
fn a_session_is_renewed_for_its_own_key() {
    let (s, a) = renew(&mut waiting(), "device", &request(), true, "new", 2000, NOW).ok().unwrap();
    assert_eq!(s.token, "new");
    assert_eq!(s.public_key, "device");
    assert_eq!(a.scope, "member");
    refused(
        renew(&mut waiting(), "other", &request(), true, "new", 2000, NOW),
        403,
        "Renew pubkey does not match authenticated identity",
    );
    refused(
        renew(&mut waiting(), "device", &request(), false, "new", 2000, NOW),
        401,
        "Invalid signature",
    );
}

fn payload_for(subject: &str, issuer: &str, standing: &str) -> CertPayload {
    CertPayload {
        subject_kind: text("user"),
        issuer_pubkey: text(issuer),
        issuer_url: text("https://hub"),
        subject_pubkey: text(subject),
        member_since: NOW - 40 * 86400,
        standing: text(standing),
        pow_level: Some(10),
        issued_at: NOW,
        expires_at: NOW + 86400,
        capabilities: vec![text("x")],
    }
}

fn cert_for(subject: &str, issuer: &str, standing: &str) -> Certification {
    Certification { payload: payload_for(subject, issuer, standing), signature: text("00") }
}

fn nothing_more() -> CertRequire {
    CertRequire { min_pow_level: None, min_member_since_days: None }
}

#[test]
fn a_certification_admits_its_subject() {
    let issuers = vec![TrustedIssuer { pubkey: text("hub"), url: text("u"), label: text("") }];
    let ok = |c: &Certification, signed: bool, key: &str, mode: &str, q: &CertRequire, now: i64| {
        certification_admits(c, signed, key, mode, &issuers, q, now)
    };
    let c = cert_for("me", "hub", "good");
    assert!(ok(&c, true, "me", "any", &nothing_more(), NOW));
    assert!(ok(&c, true, "me", "trusted", &nothing_more(), NOW + 86400));
    assert!(!ok(&c, true, "me", "any", &nothing_more(), NOW + 86401));
    assert!(!ok(&c, true, "you", "any", &nothing_more(), NOW));
    assert!(!ok(&c, false, "me", "any", &nothing_more(), NOW));
    assert!(!ok(&c, true, "me", "none", &nothing_more(), NOW));
    assert!(!ok(&cert_for("me", "hub", "revoked"), true, "me", "any", &nothing_more(), NOW));
    let stranger = cert_for("me", "elsewhere", "good");
    assert!(ok(&stranger, true, "me", "any", &nothing_more(), NOW));
    assert!(!ok(&stranger, true, "me", "trusted", &nothing_more(), NOW));
    let mut bad = cert_for("me", "hub", "good");
    bad.signature = text("0");
    assert!(!ok(&bad, true, "me", "any", &nothing_more(), NOW));
    let q = CertRequire { min_pow_level: Some(11), min_member_since_days: None };
    assert!(!ok(&c, true, "me", "any", &q, NOW));
    let q = CertRequire { min_pow_level: Some(10), min_member_since_days: Some(40) };
    assert!(ok(&c, true, "me", "any", &q, NOW));
    let q = CertRequire { min_pow_level: None, min_member_since_days: Some(41) };
    assert!(!ok(&c, true, "me", "any", &q, NOW));
}

#[test]
fn any_issuer_will_do_that_is_confirmed() {
    let issuers = vec![TrustedIssuer { pubkey: text("hub"), url: text("u"), label: text("") }];
    let ok = |our: &str, described: Option<&str>, mode: &str| {
        let described = described.map(|d| d.to_string());
        let c = cert_for("me", "hub", "good");
        verify_certification(
            &c, true, our, &described, "me", mode, &issuers, &nothing_more(), NOW,
        )
    };
    assert!(ok("us", Some("hub"), "any"));
    assert!(ok("hub", None, "any"));
    assert!(!ok("us", None, "any"));
    assert!(!ok("us", Some("else"), "any"));
    assert!(ok("us", None, "trusted"));
}

#[test]
fn a_member_in_good_standing_is_certified() {
    let m = MemberStanding { first_seen_at: 50, approval_status: text("approved"), pow_level: Some(3) };
    let p = issue_cert_for(&Some(m), false, &None, "hub", &Some(text("https://hub")), "me", 1000);
    let p = p.ok().unwrap();
    assert_eq!(p.expires_at, 1000 + 90 * 86400);
    assert_eq!(p.member_since, 50);
    assert_eq!(p.pow_level, Some(3));
    assert_eq!(p.standing, "good");
    let row = record_issuance(&p, "id1", "{}", "00");
    assert_eq!(row.standing, "good");
    assert!(row.revoked_at.is_none());
    let none: Option<MemberStanding> = None;
    refused(issue_cert_for(&none, false, &None, "h", &None, "me", 1), 404, "User not found");
    let pending = MemberStanding { first_seen_at: 5, approval_status: text("pending"), pow_level: None };
    refused(
        issue_cert_for(&Some(pending), true, &None, "h", &None, "me", 1),
        403,
        "User is not approved",
    );
    let m = MemberStanding { first_seen_at: 5, approval_status: text("approved"), pow_level: Some(0) };
    refused(issue_cert_for(&Some(m), true, &None, "h", &None, "me", 1), 403, "User is banned");
    let m = MemberStanding { first_seen_at: 5, approval_status: text("approved"), pow_level: Some(0) };
    let p = admin_issue(
        &holding(&["admin"], 0), &Some(m), false, &Some(text("1")), "h", &None, "me", 1,
    );
    let p = p.ok().unwrap();
    assert_eq!(p.expires_at, 86401);
    assert!(p.pow_level.is_none());
    assert_eq!(p.issuer_url, "");
    let none: Option<MemberStanding> = None;
    refused(
        admin_issue(&no_one(), &none, false, &None, "h", &None, "me", 1),
        403,
        "Missing permission: admin",
    );
    assert!(check_expiry(&None, 0));
    assert!(!check_expiry(&Some(text("9223372036854775807")), 0));
    assert!(!check_expiry(&None, i64::MAX));
}

fn ledger_row(subject: &str) -> IssuanceDbRow {
    record_issuance(&payload_for(subject, "hub", "good"), "id", "{}", "00")
}

#[test]
fn a_revocation_reaches_every_certification_of_the_member() {
    let mut ledger = vec![ledger_row("me"), ledger_row("you")];
    let p = revoke_cert_for(&mut ledger, Some(7), "hub", &None, "me", 500).unwrap();
    assert_eq!(p.standing, "revoked");
    assert_eq!(p.expires_at, 500 + 86400);
    assert_eq!(p.member_since, 7);
    assert_eq!(ledger[0].revoked_at, Some(500));
    assert_eq!(ledger[0].standing, "revoked");
    assert!(ledger[1].revoked_at.is_none());
    let again = record_issuance(&p, "id2", "{}", "00");
    assert_eq!(again.revoked_at, Some(500));
    assert!(revoke_cert_for(&mut ledger, None, "hub", &None, "ghost", 500).is_none());
    let r = admin_revoke(&no_one(), &mut ledger, None, "hub", &None, "you", 501);
    refused(r, 403, "Missing permission: admin");
    assert!(ledger[1].revoked_at.is_none());
    let admin = holding(&["admin"], 0);
    let r = admin_revoke(&admin, &mut ledger, None, "hub", &None, "you", 501);
    assert!(r.ok().unwrap().is_none());
    assert_eq!(ledger[1].revoked_at, Some(501));
    let entries = vec![
        LedgerEntry { row: ledger_row("a"), payload: None },
        LedgerEntry { row: ledger_row("b"), payload: Some(payload_for("b", "hub", "good")) },
    ];
    let shown = admin_list(&admin, entries).ok().unwrap();
    assert_eq!(shown[0].payload.issuer_pubkey, "");
    assert_eq!(shown[0].payload.subject_pubkey, "a");
    assert_eq!(shown[1].payload.issuer_pubkey, "hub");
}

#[test]
fn certifications_are_shown_while_they_stand() {
    let stored = |subject: &str, standing: &str, revoked_at: Option<i64>, expires_at: i64| StoredCert {
        subject_pubkey: text(subject),
        standing: text(standing),
        revoked_at,
        expires_at,
        payload: Ok(payload_for(subject, "hub", standing)),
        signature: text("00"),
    };
    let issued = vec![
        stored("me", "good", None, 100),
        stored("me", "good", None, 10),
        stored("me", "good", Some(5), 100),
        stored("you", "good", None, 100),
    ];
    let brought = vec![stored("me", "revoked", None, 100), stored("me", "good", None, 100)];
    let c = list_user_certs(&issued, &brought, "me", 10).ok().unwrap();
    assert_eq!(c.len(), 2);
    assert_eq!(c[0].payload.capabilities, vec![text("x")]);
    let mut broken = stored("me", "good", None, 100);
    broken.payload = Err(text("EOF"));
    refused(list_user_certs(&vec![broken], &vec![], "me", 10), 500, "Payload parse error: EOF");
}

#[test]
fn certification_settings_are_checked_and_ordered() {
    let patch = |mode: Option<&str>| CertSettingsPatch {
        cert_auto_issue: Some(text("false")),
        cert_standing_days: None,
        cert_validity_days: None,
        cert_mode: mode.map(|m| m.to_string()),
        cert_trusted_issuers: Some(text("[]")),
        cert_require: None,
        cert_min_pow_level: Some(text("3")),
    };
    let admin = holding(&["admin"], 0);
    let s = patch_cert_settings(&admin, &patch(Some("any"))).ok().unwrap();
    let keys: Vec<&str> = s.iter().map(|x| x.key.as_str()).collect();
    assert_eq!(
        keys,
        vec!["cert_auto_issue", "cert_mode", "cert_min_pow_level", "cert_trusted_issuers"]
    );
    assert_eq!(s[1].value, "any");
    refused(
        patch_cert_settings(&admin, &patch(Some("all"))),
        400,
        "cert_mode must be 'none', 'any', or 'trusted'",
    );
    refused(patch_cert_settings(&no_one(), &patch(None)), 403, "Missing permission: admin");
    assert_eq!(load_cert_mode(&None), "none");
    assert!(load_cert_requirement(&None, vec![], nothing_more()).is_none());
    let q = load_cert_requirement(&Some(text("any")), load_trusted_issuers(None), load_cert_require(None));
    let q = q.unwrap();
    assert_eq!(q.mode, "any");
    assert!(q.trusted_issuers.is_empty());
    assert!(q.require.min_pow_level.is_none());
}

#[test]
fn the_round_certifies_those_who_earned_it() {
    let user = |key: &str, status: &str, is_bot: Option<i64>, first_seen_at: i64| WorkerUser {
        public_key: text(key),
        approval_status: text(status),
        is_bot,
        first_seen_at,
    };
    let s = |auto: Option<&str>| WorkerSettings {
        auto_issue: auto.map(|a| a.to_string()),
        standing_days: None,
    };
    let old = NOW - 30 * 86400;
    let users = vec![
        user("due", "approved", None, old),
        user("young", "approved", None, old + 1),
        user("pending", "pending", None, old),
        user("bot", "approved", Some(1), old),
        user("banned", "approved", Some(0), old),
        user("fresh", "approved", None, old),
    ];
    let bans = vec![BanResponse {
        target_public_key: text("banned"),
        banned_by: text("x"),
        reason: None,
        created_at: 0,
    }];
    let ledger = vec![ledger_row("fresh")];
    assert_eq!(tick(&users, &ledger, &bans, &s(None), NOW), vec![text("due")]);
    assert_eq!(tick(&users, &ledger, &bans, &s(Some("false")), NOW).len(), 0);
    let at_the_end = NOW + 86400;
    assert!(!tick(&users, &ledger, &bans, &s(None), at_the_end).contains(&text("fresh")));
    let later = NOW + 86401;
    let keys = tick(&users, &ledger, &bans, &s(Some("true")), later);
    assert!(keys.contains(&text("fresh")));
    let many: Vec<WorkerUser> =
        (0..600).map(|i| user(&format!("u{i}"), "approved", None, old)).collect();
    assert_eq!(tick(&many, &vec![], &vec![], &s(None), NOW).len(), 600);
}

#[test]
fn a_fresh_storage_is_seeded_and_an_old_one_kept() {
    let mut s = Seeded { roles: vec![], permissions: vec![], settings: Table::new() };
    s.settings.insert(text("invite_only"), text("true"));
    run(&mut s);
    run(&mut s);
    assert_eq!(s.roles.len(), 2);
    assert_eq!(s.roles[1].id, "builtin-owner");
    assert_eq!(s.roles[1].priority, 999999);
    assert_eq!(s.permissions.len(), 6);
    assert_eq!(s.settings.len(), 11);
    assert_eq!(s.settings.get(&text("invite_only")), Some(&text("true")));
    assert_eq!(s.settings.get(&text("challenge_difficulty")), Some(&text("easy")));
    let owner = user_permissions(vec![role("builtin-owner", 999999)], &s.permissions);
    assert!(owner.has("manage_hub_icons"));
    let member = user_permissions(vec![role("builtin-everyone", 0)], &s.permissions);
    assert!(member.has("send_messages"));
    assert!(!member.has("manage_posts"));
    assert!(goes_on(false, Some(text("duplicate column"))).is_ok());
    assert_eq!(goes_on(true, Some(text("locked"))).err(), Some(text("locked")));
    assert!(goes_on(true, None).is_ok());
}

#[test]
fn the_hub_tells_what_it_asks_for() {
    assert_eq!(health().status, "ok");
    let b = Branding { name: text("Hub"), description: None, icon: Some(text("i")) };
    let s = InfoSettings {
        min_security_level: Some(text("20")),
        min_pow_level: Some(text("300")),
        invite_only: Some(text("true")),
        challenge_mode: None,
    };
    let r = info(b, "1.2.3", "key", &s, None);
    assert_eq!(r.min_security_level, 20);
    assert_eq!(r.min_pow_level, 0);
    assert!(r.invite_only);
    assert_eq!(r.challenge_mode, "off");
    assert_eq!(r.version, "1.2.3");
    assert_eq!(db_error("locked").message, "DB error: locked");
}

#[test]
fn the_hub_is_started_as_it_is_told() {
    assert_eq!(port_from_env(&None, DEFAULT_HTTP_PORT), Some(3000));
    assert_eq!(port_from_env(&None, DEFAULT_VOICE_UDP_PORT), Some(3001));
    assert_eq!(port_from_env(&Some(text("8080")), 3000), Some(8080));
    assert_eq!(port_from_env(&Some(text("65536")), 3000), None);
    assert_eq!(port_from_env(&Some(text("http")), 3000), None);
    assert!(tls_config_from_env(Some(text("c")), None).is_none());
    assert_eq!(tls_config_from_env(Some(text("c")), Some(text("k"))).unwrap().key, "k");
    assert!(matches!(command_of(&Some(text("migrate"))), Command::Migrate));
    assert!(matches!(command_of(&None), Command::Serve));
}
