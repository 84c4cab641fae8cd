use voxply::farm::hubs::{
    count_hosted, count_live, count_owned, create_hub, delete_hub, draw_hub_id, free_hub_id,
    generate_hub_id, get_hub, hub_url, list_hubs, suspend_hub, CreateHubRequest,
    CreateHubResponse, CreationPolicy, HubRow, SuspendRequest,
};
use voxply::farm::{bearer_token, db_error, Caller, FarmError, FarmTokenPayload};

const FARM: &str = "https://farm.test";
const OWNER: &str = "aa11";
const OTHER: &str = "bb22";
const ADMIN: &str = "cc33";

fn text(s: &str) -> String {
    s.to_string()
}

fn anyone() -> Caller {
    Caller { header: None, payload: None }
}

fn user(key: &str) -> Caller {
    Caller {
        header: Some(text("Bearer a.b.c")),
        payload: Some(FarmTokenPayload { sub: text(key) }),
    }
}

fn hub(id: &str, owner: &str, name: &str, visibility: &str) -> HubRow {
    HubRow {
        id: text(id),
        owner_pubkey: text(owner),
        name: text(name),
        description: None,
        visibility: text(visibility),
        db_path: format!("/tmp/{id}.db"),
        created_at: 1000,
        suspended_at: None,
        suspension_reason: None,
        deleted_at: None,
    }
}

fn open_policy() -> Option<CreationPolicy> {
    Some(CreationPolicy {
        creation_policy: text("open"),
        max_hubs_per_user: 0,
        max_hubs_total: 0,
        admin_pubkey: None,
    })
}

fn named(name: &str) -> CreateHubRequest {
    CreateHubRequest { name: text(name), description: None, visibility: None }
}

fn create(
    caller: &Caller,
    hubs: &Vec<HubRow>,
    req: &CreateHubRequest,
) -> Result<(HubRow, CreateHubResponse), FarmError> {
    create_hub(caller, &open_policy(), hubs, req, "0badcafe", "/srv/hubs/", FARM, 1234)
}

fn refused<T>(r: Result<T, FarmError>, status: u16, error: &str) {
    let e = r.err().unwrap();
    assert_eq!(e.status, status);
    assert_eq!(e.error, error);
}

#[test]
fn farm_info_hosted_hubs_zero_on_empty() {
    assert_eq!(count_hosted(&vec![]), 0);
}

#[test]
fn farm_info_hosted_hubs_counts_active_only() {
    let mut hubs = vec![
        hub("hub001", OWNER, "Hub One", "public"),
        hub("hub002", OWNER, "Hub Two", "public"),
    ];
    hubs[1].suspended_at = Some(2000);
    assert_eq!(count_hosted(&hubs), 1);
    assert_eq!(count_live(&hubs), 2);
    assert_eq!(count_owned(&hubs, OWNER), 2);
    assert_eq!(count_owned(&hubs, OTHER), 0);
}

#[test]
fn list_hubs_unauthenticated_empty_when_directory_private() {
    let hubs = vec![hub("hubpub", OWNER, "Public Hub", "public")];
    assert_eq!(list_hubs(&anyone(), false, &hubs, FARM).hubs.len(), 0);
}

#[test]
fn list_hubs_unauthenticated_returns_public_when_directory_public() {
    let hubs = vec![
        hub("hubpub", OWNER, "Public Hub", "public"),
        hub("hubprv", OWNER, "Private Hub", "private"),
    ];
    let r = list_hubs(&anyone(), true, &hubs, FARM);
    assert_eq!(r.hubs.len(), 1);
    assert_eq!(r.hubs[0].id, "hubpub");
    assert!(r.hubs[0].hub_url.contains("hubpub"));
    assert_eq!(r.hubs[0].hub_url, "https://farm.test/hub/hubpub");
}

#[test]
fn list_hubs_authenticated_returns_owned_plus_public() {
    let hubs = vec![
        hub("hub_owner_pub", OWNER, "Owner Public", "public"),
        hub("hub_owner_prv", OWNER, "Owner Private", "private"),
        hub("hub_other_pub", OTHER, "Other Public", "public"),
        hub("hub_other_prv", OTHER, "Other Private", "private"),
    ];
    let r = list_hubs(&user(OWNER), true, &hubs, FARM);
    let ids: Vec<&str> = r.hubs.iter().map(|h| h.id.as_str()).collect();
    assert!(ids.contains(&"hub_owner_pub"), "own public must be in list");
    assert!(ids.contains(&"hub_owner_prv"), "own private must be in list");
    assert!(ids.contains(&"hub_other_pub"), "other public must be in list");
    assert!(!ids.contains(&"hub_other_prv"), "other private must NOT be in list");
}

#[test]
fn create_hub_requires_auth() {
    refused(create(&anyone(), &vec![], &named("Test Hub")), 401, "missing_token");
    let forged = Caller { header: Some(text("Bearer forged")), payload: None };
    refused(create(&forged, &vec![], &named("Test Hub")), 401, "invalid_token");
}

#[test]
fn create_hub_rejects_empty_name() {
    refused(create(&user(OWNER), &vec![], &named("")), 400, "invalid_name");
}

#[test]
fn create_hub_rejects_name_with_invalid_chars() {
    refused(create(&user(OWNER), &vec![], &named("Hub@Invalid!")), 400, "invalid_name");
}

#[test]
fn create_hub_happy_path() {
    let req = CreateHubRequest {
        name: text("My Test Hub"),
        description: Some(text("A hub for testing")),
        visibility: Some(text("public")),
    };
    let (row, answer) = create(&user(OWNER), &vec![], &req).ok().unwrap();
    assert!(!answer.id.is_empty());
    assert!(answer.hub_url.contains(&answer.id), "hub_url should contain hub_id");
    assert_eq!(row.id, answer.id);
    assert_eq!(row.owner_pubkey, OWNER);
    assert_eq!(row.db_path, "/srv/hubs/0badcafe.db");
    assert_eq!(row.created_at, 1234);
    assert!(row.deleted_at.is_none());
}

#[test]
fn get_hub_returns_correct_info() {
    let hubs = vec![hub("hub123", OWNER, "Test Hub", "public")];
    let e = get_hub(&hubs, "hub123", FARM).ok().unwrap();
    assert_eq!(e.id, "hub123");
    assert_eq!(e.name, "Test Hub");
    assert_eq!(e.visibility, "public");
    assert!(e.hub_url.contains("hub123"));
}

#[test]
fn get_hub_returns_404_for_unknown() {
    refused(get_hub(&vec![], "doesnotexist", FARM), 404, "hub_not_found");
}

#[test]
fn suspend_hub_requires_auth() {
    let mut hubs = vec![hub("hubsus", OWNER, "Hub", "public")];
    let req = SuspendRequest { reason: None, suspended: None };
    let r = suspend_hub(&anyone(), &None, &mut hubs, "hubsus", &req, 5);
    refused(r, 401, "missing_token");
    assert!(hubs[0].suspended_at.is_none());
}

#[test]
fn suspend_hub_requires_admin() {
    let mut hubs = vec![hub("hubsus", OWNER, "Hub", "public")];
    let req = SuspendRequest { reason: Some(text("spam")), suspended: None };
    let r = suspend_hub(&user(OTHER), &Some(text(OWNER)), &mut hubs, "hubsus", &req, 5);
    refused(r, 403, "farm_admin_only");
}

#[test]
fn suspend_hub_happy_path() {
    let mut hubs = vec![hub("hubsus", ADMIN, "Hub", "public")];
    let req = SuspendRequest { reason: Some(text("testing")), suspended: None };
    let r = suspend_hub(&user(ADMIN), &Some(text(ADMIN)), &mut hubs, "hubsus", &req, 77);
    let s = r.ok().unwrap();
    assert_eq!(s.id, "hubsus");
    assert_eq!(s.suspended_at, Some(77));
    assert_eq!(hubs[0].suspended_at, Some(77));
    assert_eq!(hubs[0].suspension_reason.as_deref(), Some("testing"));
}

#[test]
fn a_suspension_can_be_lifted() {
    let mut hubs =
        vec![hub("hubsus", ADMIN, "Hub", "public"), hub("other", ADMIN, "Other", "public")];
    let mut go = |suspended: Option<bool>, now: i64| {
        let req = SuspendRequest { reason: Some(text("testing")), suspended };
        let r = suspend_hub(&user(ADMIN), &Some(text(ADMIN)), &mut hubs, "hubsus", &req, now);
        let row = &hubs[0];
        assert!(hubs[1].suspended_at.is_none());
        (r.ok().unwrap().suspended_at, row.suspended_at, row.suspension_reason.clone())
    };
    assert_eq!(go(Some(true), 5), (Some(5), Some(5), Some(text("testing"))));
    assert_eq!(go(Some(false), 6), (None, None, None));
    assert_eq!(go(None, 7), (Some(7), Some(7), Some(text("testing"))));
    let req = SuspendRequest { reason: None, suspended: Some(false) };
    let r = suspend_hub(&user(OTHER), &Some(text(ADMIN)), &mut hubs, "hubsus", &req, 8);
    refused(r, 403, "farm_admin_only");
    assert_eq!(hubs[0].suspended_at, Some(7));
}

#[test]
fn suspend_hub_returns_404_for_unknown() {
    let mut hubs = vec![];
    let req = SuspendRequest { reason: None, suspended: None };
    let r = suspend_hub(&user(ADMIN), &Some(text(ADMIN)), &mut hubs, "nope", &req, 77);
    refused(r, 404, "hub_not_found");
}

#[test]
fn delete_hub_requires_auth() {
    let mut hubs = vec![hub("hubdel", OWNER, "Hub", "public")];
    refused(delete_hub(&anyone(), &None, &mut hubs, "hubdel", 9), 401, "missing_token");
}

#[test]
fn delete_hub_by_owner_succeeds() {
    let mut hubs = vec![hub("hubdel", OWNER, "Hub", "public")];
    assert_eq!(delete_hub(&user(OWNER), &None, &mut hubs, "hubdel", 9).ok(), Some(204));
    assert_eq!(hubs.len(), 1);
    assert_eq!(hubs[0].deleted_at, Some(9));
}

#[test]
fn a_deleted_hub_leaves_every_listing_and_the_quota() {
    let mut hubs = vec![
        hub("a", OWNER, "A", "public"),
        hub("b", OWNER, "B", "public"),
        hub("c", OTHER, "C", "public"),
    ];
    assert_eq!(delete_hub(&user(OWNER), &None, &mut hubs, "a", 9).ok(), Some(204));
    for caller in [anyone(), user(OWNER), user(OTHER)] {
        let listed = list_hubs(&caller, true, &hubs, FARM).hubs;
        let ids: Vec<&str> = listed.iter().map(|h| h.id.as_str()).collect();
        assert_eq!(ids, vec!["b", "c"]);
    }
    assert_eq!(count_owned(&hubs, OWNER), 1);
    assert_eq!(count_owned(&hubs, OTHER), 1);
    assert_eq!(count_live(&hubs), 2);
    refused(get_hub(&hubs, "a", FARM), 404, "hub_not_found");
    refused(delete_hub(&user(OWNER), &None, &mut hubs, "a", 10), 404, "hub_not_found");
    assert_eq!(hubs[0].deleted_at, Some(9));
}

#[test]
fn delete_hub_by_non_owner_non_admin_is_forbidden() {
    let mut hubs = vec![hub("hubdel", OWNER, "Hub", "public")];
    let r = delete_hub(&user(OTHER), &Some(text(ADMIN)), &mut hubs, "hubdel", 9);
    assert_eq!(r.err().unwrap().status, 403);
    assert!(hubs[0].deleted_at.is_none());
}

#[test]
fn delete_hub_by_admin_succeeds() {
    let mut hubs = vec![hub("hubdel2", OWNER, "Hub", "public")];
    let r = delete_hub(&user(ADMIN), &Some(text(ADMIN)), &mut hubs, "hubdel2", 9);
    assert_eq!(r.ok(), Some(204));
}

#[test]
fn delete_hub_returns_404_for_unknown() {
    let mut hubs = vec![];
    refused(delete_hub(&user(ADMIN), &Some(text(ADMIN)), &mut hubs, "nope", 9), 404, "hub_not_found");
}

#[test]
fn a_deleted_hub_is_shown_to_no_one() {
    let mut hubs = vec![hub("gone", OWNER, "Hub", "public"), hub("stays", OWNER, "Hub", "public")];
    assert_eq!(delete_hub(&user(OWNER), &None, &mut hubs, "gone", 9).ok(), Some(204));
    let seen = list_hubs(&user(OWNER), true, &hubs, FARM).hubs;
    assert_eq!(seen.len(), 1);
    assert_eq!(seen[0].id, "stays");
    refused(get_hub(&hubs, "gone", FARM), 404, "hub_not_found");
    refused(delete_hub(&user(OWNER), &None, &mut hubs, "gone", 10), 404, "hub_not_found");
}

#[test]
fn a_name_is_trimmed_and_bounded_in_characters() {
    let (row, _) = create(&user(OWNER), &vec![], &named("  Caf\u{e9} - 9 ")).ok().unwrap();
    assert_eq!(row.name, "Caf\u{e9} - 9");
    assert_eq!(row.visibility, "private");
    assert!(create(&user(OWNER), &vec![], &named(&"a".repeat(64))).is_ok());
    assert!(create(&user(OWNER), &vec![], &named(&"\u{e9}".repeat(64))).is_ok());
    let e = create(&user(OWNER), &vec![], &named(&"\u{e9}".repeat(65))).err().unwrap();
    assert_eq!(e.details.as_deref(), Some("must be 1-64 chars"));
    let e = create(&user(OWNER), &vec![], &named("a_b")).err().unwrap();
    assert_eq!(e.details.as_deref(), Some("only alphanumeric, spaces, hyphens"));
}

#[test]
fn hub_ids_are_eight_hex_digits() {
    let a = generate_hub_id();
    let b = generate_hub_id();
    assert_eq!(a.len(), 8);
    assert!(a.chars().all(|c| c.is_ascii_hexdigit()));
    assert!(a != b || generate_hub_id() != a);
    let taken = vec![hub("x", OWNER, "x", "public")];
    assert_eq!(draw_hub_id(&taken).unwrap().len(), 8);
    assert!(free_hub_id(&taken, "x".to_string()).is_none());
    assert_eq!(free_hub_id(&taken, "y".to_string()).as_deref(), Some("y"));
}

#[test]
fn a_farm_url_loses_its_trailing_slashes() {
    assert_eq!(hub_url("https://farm.test//", "h1"), "https://farm.test/hub/h1");
}

#[test]
fn a_bearer_token_is_what_follows_the_scheme() {
    assert_eq!(bearer_token(&Some(text("Bearer abc"))).ok(), Some(text("abc")));
    refused(bearer_token(&Some(text("bearer abc"))), 401, "missing_token");
    assert_eq!(db_error("disk full").error, "db_error: disk full");
    assert_eq!(db_error("disk full").status, 500);
}
