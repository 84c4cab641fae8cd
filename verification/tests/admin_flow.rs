use voxply::farm::admin::{
    get_settings, list_users, me_hub_quota, patch_settings, public_info, revoke_user_sessions,
    validate_creation_policy, validate_language, validate_languages, validate_tags, FarmRow,
    FarmSessionRow, FarmUserRow, ListUsersQuery, PatchSettingsRequest,
};
use voxply::farm::hubs::{create_hub, CreateHubRequest, CreateHubResponse, CreationPolicy, HubRow};
use voxply::farm::{Caller, FarmError, FarmTokenPayload};

const USER: &str = "aa11";
const OTHER: &str = "bb22";
const ADMIN: &str = "cc33";

fn text(s: &str) -> String {
    s.to_string()
}

fn texts(v: &[&str]) -> Vec<String> {
    v.iter().map(|s| s.to_string()).collect()
}

fn anyone() -> Caller {
    Caller { header: None, payload: None }
}

fn user(key: &str) -> Caller {
    Caller {
        header: Some(text("Bearer a.b.c")),
        payload: Some(FarmTokenPayload { sub: text(key) }),
    }
}

fn farm() -> FarmRow {
    FarmRow {
        name: text("Farm"),
        description: None,
        directory_public: 0,
        creation_policy: text("open"),
        max_hubs_per_user: 0,
        max_hubs_total: 0,
        allow_discovery_listing: 0,
        languages: text("[\"en\"]"),
        tags: text("[]"),
        country: None,
        region: None,
        admin_pubkey: Some(text(ADMIN)),
    }
}

fn nothing() -> PatchSettingsRequest {
    PatchSettingsRequest {
        name: None,
        description: None,
        directory_public: None,
        creation_policy: None,
        max_hubs_per_user: None,
        max_hubs_total: None,
        allow_discovery_listing: None,
        languages: None,
        tags: None,
        country: None,
        region: None,
    }
}

fn hub(id: &str, owner: &str) -> HubRow {
    HubRow {
        id: text(id),
        owner_pubkey: text(owner),
        name: text("Hub"),
        description: None,
        visibility: text("private"),
        db_path: text("/tmp/test.db"),
        created_at: 1000,
        suspended_at: None,
        suspension_reason: None,
        deleted_at: None,
    }
}

fn person(key: &str) -> FarmUserRow {
    FarmUserRow { public_key: text(key), first_seen_at: 1, last_seen_at: 2 }
}

fn session(jti: &str, key: &str) -> FarmSessionRow {
    FarmSessionRow {
        jti: text(jti),
        public_key: text(key),
        expires_at: 10_000,
        revoked_at: None,
        revoked_manually: false,
    }
}

fn policy_of(f: &FarmRow) -> Option<CreationPolicy> {
    Some(CreationPolicy {
        creation_policy: f.creation_policy.clone(),
        max_hubs_per_user: f.max_hubs_per_user,
        max_hubs_total: f.max_hubs_total,
        admin_pubkey: f.admin_pubkey.clone(),
    })
}

fn create(
    f: &FarmRow,
    caller: &Caller,
    hubs: &Vec<HubRow>,
    name: &str,
) -> Result<(HubRow, CreateHubResponse), FarmError> {
    let req = CreateHubRequest { name: text(name), description: None, visibility: None };
    create_hub(caller, &policy_of(f), hubs, &req, "newhub01", "/srv", "https://farm.test", 5)
}

fn refused<T>(r: Result<T, FarmError>, status: u16, error: &str) {
    let e = r.err().unwrap();
    assert_eq!(e.status, status);
    assert_eq!(e.error, error);
}

fn patch_refused(req: PatchSettingsRequest, error: &str) {
    refused(patch_settings(&user(ADMIN), &Some(farm()), &req), 400, error);
}

#[test]
fn get_settings_requires_admin() {
    refused(get_settings(&anyone(), &Some(farm())), 401, "missing_token");
    refused(get_settings(&user(USER), &Some(farm())), 403, "farm_admin_only");
}

#[test]
fn get_settings_returns_full_row_for_admin() {
    let s = get_settings(&user(ADMIN), &Some(farm())).ok().unwrap();
    assert_eq!(s.creation_policy, "open");
    assert_eq!(s.max_hubs_per_user, 0);
    assert_eq!(s.max_hubs_total, 0);
    assert!(!s.allow_discovery_listing);
    assert_eq!(s.languages, "[\"en\"]");
    assert_eq!(s.tags, "[]");
}

#[test]
fn patch_settings_requires_admin() {
    let mut req = nothing();
    req.name = Some(text("new name"));
    refused(patch_settings(&user(USER), &Some(farm()), &req), 403, "farm_admin_only");
}

#[test]
fn patch_settings_updates_fields() {
    let mut req = nothing();
    req.name = Some(text("Updated Farm"));
    req.creation_policy = Some(text("admin_only"));
    req.max_hubs_per_user = Some(3);
    req.max_hubs_total = Some(100);
    req.allow_discovery_listing = Some(true);
    req.languages = Some(texts(&["it", "en"]));
    req.tags = Some(texts(&["gaming", "community"]));
    let (row, s) = patch_settings(&user(ADMIN), &Some(farm()), &req).ok().unwrap();
    assert_eq!(s.name, "Updated Farm");
    assert_eq!(s.creation_policy, "admin_only");
    assert_eq!(s.max_hubs_per_user, 3);
    assert_eq!(s.max_hubs_total, 100);
    assert!(s.allow_discovery_listing);
    assert_eq!(s.languages, "[\"it\",\"en\"]");
    assert_eq!(s.tags, "[\"gaming\",\"community\"]");
    assert_eq!(row.name, "Updated Farm");
    assert_eq!(row.admin_pubkey.as_deref(), Some(ADMIN));
}

#[test]
fn patch_settings_rejects_invalid_creation_policy() {
    let mut req = nothing();
    req.creation_policy = Some(text("invite_only"));
    patch_refused(req, "invalid_value");
}

#[test]
fn patch_settings_rejects_unknown_tag() {
    let mut req = nothing();
    req.tags = Some(texts(&["hacking"]));
    patch_refused(req, "invalid_tag");
}

#[test]
fn patch_settings_rejects_too_many_tags() {
    let mut req = nothing();
    req.tags = Some(texts(&["gaming", "creative", "education", "community"]));
    patch_refused(req, "invalid_tag");
}

#[test]
fn patch_settings_rejects_invalid_language_code() {
    let mut req = nothing();
    req.languages = Some(texts(&["english"]));
    patch_refused(req, "invalid_value");
}

#[test]
fn hub_quota_requires_auth() {
    refused(me_hub_quota(&anyone(), &Some(farm()), &vec![]), 401, "missing_token");
}

#[test]
fn hub_quota_returns_unlimited_when_zero() {
    let q = me_hub_quota(&user(USER), &Some(farm()), &vec![]).ok().unwrap();
    assert_eq!(q.creation_policy, "open");
    assert_eq!(q.hubs_owned, 0);
    assert_eq!(q.max_hubs_per_user, 0);
    assert!(q.quota_remaining.is_none());
    assert!(q.farm_quota_remaining.is_none());
}

#[test]
fn hub_quota_reflects_owned_hubs_and_limit() {
    let mut f = farm();
    f.max_hubs_per_user = 3;
    let hubs = vec![hub("hub0", USER), hub("hub1", USER)];
    let q = me_hub_quota(&user(USER), &Some(f), &hubs).ok().unwrap();
    assert_eq!(q.hubs_owned, 2);
    assert_eq!(q.max_hubs_per_user, 3);
    assert_eq!(q.quota_remaining, Some(1));
}

#[test]
fn create_hub_blocked_when_policy_disabled() {
    let mut f = farm();
    f.creation_policy = text("disabled");
    refused(create(&f, &user(ADMIN), &vec![], "Admin Hub"), 403, "hub_creation_disabled");
}

#[test]
fn create_hub_blocked_for_non_admin_when_policy_admin_only() {
    let mut f = farm();
    f.creation_policy = text("admin_only");
    refused(create(&f, &user(USER), &vec![], "User Hub"), 403, "admin_only");
}

#[test]
fn create_hub_allowed_for_admin_when_policy_admin_only() {
    let mut f = farm();
    f.creation_policy = text("admin_only");
    assert!(create(&f, &user(ADMIN), &vec![], "Admin Hub").is_ok());
}

#[test]
fn create_hub_enforces_per_user_quota() {
    let mut f = farm();
    f.max_hubs_per_user = 1;
    let hubs = vec![hub("existinghub", USER)];
    refused(create(&f, &user(USER), &hubs, "Second Hub"), 403, "user_quota_exceeded");
}

#[test]
fn create_hub_enforces_farm_total_quota() {
    let mut f = farm();
    f.max_hubs_total = 1;
    let hubs = vec![hub("farmhub", OTHER)];
    refused(create(&f, &user(USER), &hubs, "Over Limit Hub"), 403, "farm_quota_exceeded");
}

#[test]
fn list_users_requires_admin() {
    let q = ListUsersQuery { limit: None, cursor: None };
    let none: Vec<FarmUserRow> = vec![];
    let r = list_users(&anyone(), &Some(farm()), &q, &none, &vec![], &vec![], 5);
    refused(r, 401, "missing_token");
    let r = list_users(&user(USER), &Some(farm()), &q, &none, &vec![], &vec![], 5);
    refused(r, 403, "farm_admin_only");
}

#[test]
fn list_users_returns_users_with_counts() {
    let q = ListUsersQuery { limit: None, cursor: None };
    let users = vec![person(ADMIN), person(USER)];
    let hubs = vec![hub("uh1", USER)];
    let sessions = vec![session("s1", USER), session("s2", ADMIN)];
    let r = list_users(&user(ADMIN), &Some(farm()), &q, &users, &hubs, &sessions, 5);
    let r = r.ok().unwrap();
    assert!(r.total >= 2, "expected at least admin + user, got {}", r.total);
    let entry = r.users.iter().find(|u| u.public_key == USER);
    assert!(entry.is_some(), "user entry not found in list");
    assert_eq!(entry.unwrap().hubs_owned, 1);
    assert_eq!(entry.unwrap().active_sessions, 1);
}

#[test]
fn a_creation_uses_up_the_quota() {
    let f = Some(FarmRow { max_hubs_per_user: 2, max_hubs_total: 3, ..farm() });
    let policy = Some(CreationPolicy {
        creation_policy: text("open"),
        max_hubs_per_user: 2,
        max_hubs_total: 3,
        admin_pubkey: None,
    });
    let req = CreateHubRequest { name: text("New"), description: None, visibility: None };
    let mut hubs = vec![hub("h0", OTHER)];
    for left in [2, 1, 0] {
        let q = me_hub_quota(&user(USER), &f, &hubs).ok().unwrap();
        assert_eq!((q.quota_remaining, q.farm_quota_remaining), (Some(left), Some(left)));
        let id = format!("n{left}");
        let r = create_hub(&user(USER), &policy, &hubs, &req, &id, "/srv", "https://f", 5);
        if left > 0 {
            hubs.push(r.ok().unwrap().0);
        } else {
            refused(r, 403, "user_quota_exceeded");
        }
    }
    let without = create_hub(&anyone(), &policy, &hubs, &req, "x", "/srv", "https://f", 5);
    refused(without, 401, "missing_token");
}

#[test]
fn pages_visit_everyone_once() {
    let users: Vec<FarmUserRow> = ["e", "a", "d", "c", "b"].iter().map(|k| person(k)).collect();
    let mut seen: Vec<String> = vec![];
    let mut cursor: Option<String> = None;
    loop {
        let q = ListUsersQuery { limit: Some(2), cursor: cursor.clone() };
        let page = list_users(&user(ADMIN), &Some(farm()), &q, &users, &vec![], &vec![], 5);
        let page = page.ok().unwrap();
        assert_eq!(page.total, 5);
        seen.extend(page.users.iter().map(|u| u.public_key.clone()));
        if page.users.len() < 2 {
            break;
        }
        cursor = seen.last().cloned();
    }
    assert_eq!(seen, texts(&["a", "b", "c", "d", "e"]));
}

#[test]
fn list_users_cursor_pagination() {
    let users = vec![person("d4"), person("b2"), person("a1"), person("c3")];
    let q = ListUsersQuery { limit: Some(2), cursor: None };
    let page1 = list_users(&user(ADMIN), &Some(farm()), &q, &users, &vec![], &vec![], 5);
    let page1 = page1.ok().unwrap().users;
    assert_eq!(page1.len(), 2);
    assert_eq!(page1[0].public_key, "a1");
    let cursor = page1.last().unwrap().public_key.clone();
    let q = ListUsersQuery { limit: Some(10), cursor: Some(cursor.clone()) };
    let page2 = list_users(&user(ADMIN), &Some(farm()), &q, &users, &vec![], &vec![], 5);
    let page2 = page2.ok().unwrap().users;
    assert_eq!(page2.len(), 2);
    for u in &page2 {
        assert!(u.public_key > cursor, "{} is not after {}", u.public_key, cursor);
    }
}

#[test]
fn revoke_sessions_requires_admin() {
    let mut sessions = vec![session("s1", USER)];
    let r = revoke_user_sessions(
        &user(USER), &Some(farm()), &vec![person(USER)], &mut sessions, USER, 7,
    );
    refused(r, 403, "farm_admin_only");
}

#[test]
fn revoke_sessions_returns_404_for_unknown_user() {
    let mut sessions = vec![];
    let r = revoke_user_sessions(
        &user(ADMIN), &Some(farm()), &vec![person(ADMIN)], &mut sessions, "deadbeef", 7,
    );
    refused(r, 404, "user_not_found");
}

#[test]
fn revoke_sessions_marks_active_sessions_revoked() {
    let mut sessions = vec![session("s1", USER), session("s2", USER), session("s3", ADMIN)];
    let users = vec![person(USER), person(ADMIN)];
    let r = revoke_user_sessions(&user(ADMIN), &Some(farm()), &users, &mut sessions, USER, 7);
    assert_eq!(r.ok().unwrap().revoked, 2);
    assert_eq!(sessions[0].revoked_at, Some(7));
    assert!(sessions[0].revoked_manually);
    assert!(sessions[1].revoked_manually);
    assert!(sessions[2].revoked_at.is_none());
}

#[test]
fn public_info_returns_404_when_discovery_disabled() {
    refused(public_info(&Some(farm()), Some(0)), 404, "discovery_disabled");
}

#[test]
fn public_info_returns_body_when_discovery_enabled() {
    let mut f = farm();
    f.allow_discovery_listing = 1;
    f.name = text("Test Farm");
    f.languages = text("[\"it\",\"en\"]");
    f.tags = text("[\"gaming\"]");
    let p = public_info(&Some(f), Some(4)).ok().unwrap();
    assert_eq!(p.kind, "voxply-farm-public");
    assert_eq!(p.name, "Test Farm");
    assert!(p.allow_discovery_listing);
    assert_eq!(p.creation_policy, "open");
    assert_eq!(p.languages, "[\"it\",\"en\"]");
    assert_eq!(p.tags, "[\"gaming\"]");
    assert_eq!(p.hub_count, 4);
}

#[test]
fn public_info_does_not_expose_admin_pubkey() {
    let mut f = farm();
    f.allow_discovery_listing = 1;
    let p = public_info(&Some(f), Some(0)).ok().unwrap();
    for shown in [&p.kind, &p.name, &p.creation_policy, &p.languages, &p.tags] {
        assert!(!shown.contains(ADMIN), "admin_pubkey must not be exposed");
    }
}

#[test]
fn an_empty_patch_changes_nothing_and_a_patch_is_idempotent() {
    let (row, _) = patch_settings(&user(ADMIN), &Some(farm()), &nothing()).ok().unwrap();
    assert_eq!(row.name, "Farm");
    assert_eq!(row.languages, "[\"en\"]");
    let mut req = nothing();
    req.tags = Some(texts(&["creative"]));
    let (once, _) = patch_settings(&user(ADMIN), &Some(farm()), &req).ok().unwrap();
    let tags = once.tags.clone();
    let (twice, _) = patch_settings(&user(ADMIN), &Some(once), &req).ok().unwrap();
    assert_eq!(twice.tags, tags);
    assert_eq!(twice.tags, "[\"creative\"]");
}

#[test]
fn the_quota_agrees_with_the_policy() {
    let mut f = farm();
    f.max_hubs_per_user = 2;
    f.max_hubs_total = 3;
    let hubs = vec![hub("h1", USER), hub("h2", USER), hub("h3", OTHER)];
    let q = me_hub_quota(&user(USER), &Some(farm()), &hubs).ok().unwrap();
    assert_eq!(q.farm_hubs_total, 3);
    refused(create(&f, &user(USER), &hubs, "More"), 403, "user_quota_exceeded");
    refused(create(&f, &user(OTHER), &hubs, "More"), 403, "farm_quota_exceeded");
    let q = me_hub_quota(&user(USER), &Some(f), &hubs).ok().unwrap();
    assert_eq!(q.quota_remaining, Some(0));
    assert_eq!(q.farm_quota_remaining, Some(0));
}

#[test]
fn validators_accept_what_they_name() {
    assert!(validate_creation_policy("open"));
    assert!(validate_creation_policy("admin_only"));
    assert!(validate_creation_policy("disabled"));
    assert!(!validate_creation_policy("Open"));
    assert!(validate_language("it"));
    assert!(!validate_language("ITA"));
    assert!(validate_tags(&texts(&["gaming"])).is_ok());
    assert!(validate_languages(&texts(&["en", "it"])).is_ok());
}
