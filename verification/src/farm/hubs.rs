//! The hubs of a farm: listing, creating, suspending and deleting them.
use vstd::prelude::*;
use crate::codec::hex_text;
use crate::entropy::random_hex;
use crate::farm::{
    is_admin, refusal, refusal_with, refuse, refuse_with, require_admin, require_auth, Caller,
    FarmError, FarmRefusal,
};
use crate::rows::{lemma_filter_step, lemma_kept};
use crate::text::{
    letter_or_number, chars_of, concat3, is_alphanumeric, is_text, opt_text, same, trim,
    trim_end_slashes, trimmed, without_trailing_slashes,
};

verus! {

/// A hub as the farm keeps it. A deleted hub stays as a row with its time of deletion.
pub struct HubRow {
    pub id: String,
    pub owner_pubkey: String,
    pub name: String,
    pub description: Option<String>,
    pub visibility: String,
    pub db_path: String,
    pub created_at: i64,
    pub suspended_at: Option<i64>,
    pub suspension_reason: Option<String>,
    pub deleted_at: Option<i64>,
}

/// A hub as the farm shows it.
pub struct HubEntry {
    pub id: String,
    pub name: String,
    pub description: Option<String>,
    pub visibility: String,
    pub hub_url: String,
    pub created_at: i64,
    pub suspended_at: Option<i64>,
}

pub struct ListHubsResponse {
    pub hubs: Vec<HubEntry>,
}

pub struct CreateHubRequest {
    pub name: String,
    pub description: Option<String>,
    pub visibility: Option<String>,
}

pub struct CreateHubResponse {
    pub id: String,
    pub hub_url: String,
}

/// Asks for a suspension, or for its end where `suspended` is given as false.
pub struct SuspendRequest {
    pub reason: Option<String>,
    pub suspended: Option<bool>,
}

pub struct SuspendResponse {
    pub id: String,
    pub suspended_at: Option<i64>,
}

/// What the farm's own row says of creating hubs.
pub struct CreationPolicy {
    pub creation_policy: String,
    pub max_hubs_per_user: i64,
    pub max_hubs_total: i64,
    pub admin_pubkey: Option<String>,
}

/// Where a hub is reached.
pub open spec fn url_of(farm_url: Seq<char>, hub_id: Seq<char>) -> Seq<char> {
    without_trailing_slashes(farm_url) + "/hub/"@ + hub_id
}

/// Where a hub is reached.
pub fn hub_url(farm_url: &str, hub_id: &str) -> (r: String)
    ensures
        r@ == url_of(farm_url@, hub_id@),
{
    let base = trim_end_slashes(farm_url);
    concat3(base.as_str(), "/hub/", hub_id)
}

/// A random identifier of eight hexadecimal digits.
pub fn generate_hub_id() -> (r: String)
    ensures
        r@.len() == 8,
        exists|b: Seq<u8>| b.len() == 4 && r@ == #[trigger] hex_text(b),
{
    random_hex(4)
}

/// Whether some row has the identifier, a deleted one too.
pub open spec fn id_taken(hubs: Seq<HubRow>, id: Seq<char>) -> bool {
    exists|i: int| 0 <= i < hubs.len() && (#[trigger] hubs[i]).id@ == id
}

/// Whether no two rows have the same identifier.
pub open spec fn ids_distinct(hubs: Seq<HubRow>) -> bool {
    forall|i: int, j: int|
        0 <= i < j < hubs.len() ==> (#[trigger] hubs[i]).id@ != (#[trigger] hubs[j]).id@
}

/// The identifier, where no hub has it.
pub fn free_hub_id(hubs: &Vec<HubRow>, id: String) -> (r: Option<String>)
    ensures
        r == if id_taken(hubs@, id@) {
            None
        } else {
            Some(id)
        },
{
    let mut i: usize = 0;
    while i < hubs.len()
        invariant
            i <= hubs@.len(),
            forall|k: int| 0 <= k < i ==> (#[trigger] hubs@[k]).id@ != id@,
        decreases hubs@.len() - i,
    {
        if same(hubs[i].id.as_str(), id.as_str()) {
            return None;
        }
        i = i + 1;
    }
    Some(id)
}

/// A random identifier that no hub has; nothing where the one that was drawn is taken, and
/// another must be drawn.
pub fn draw_hub_id(hubs: &Vec<HubRow>) -> (r: Option<String>)
    ensures
        match r {
            Some(id) => !id_taken(hubs@, id@) && exists|b: Seq<u8>|
                b.len() == 4 && id@ == #[trigger] hex_text(b),
            None => exists|b: Seq<u8>| b.len() == 4 && id_taken(hubs@, #[trigger] hex_text(b)),
        },
{
    let id = generate_hub_id();
    free_hub_id(hubs, id)
}

/// Whether the hub is there for callers: not deleted.
pub open spec fn live(h: HubRow) -> bool {
    h.deleted_at is None
}

/// Whether the hub is live and owned by the identity.
pub open spec fn live_owned(h: HubRow, owner: Seq<char>) -> bool {
    live(h) && h.owner_pubkey@ == owner
}

/// The live hubs, as a condition on rows.
pub open spec fn is_live() -> spec_fn(HubRow) -> bool {
    |h: HubRow| live(h)
}

/// The live hubs of an owner, as a condition on rows.
pub open spec fn is_owned(owner: Seq<char>) -> spec_fn(HubRow) -> bool {
    |h: HubRow| live_owned(h, owner)
}

/// The live hubs that are not suspended, as a condition on rows.
pub open spec fn is_hosted() -> spec_fn(HubRow) -> bool {
    |h: HubRow| live(h) && h.suspended_at is None
}

/// How many live hubs there are.
pub open spec fn live_count(hubs: Seq<HubRow>) -> nat {
    hubs.filter(is_live()).len()
}

/// How many live hubs the identity owns.
pub open spec fn owned_count(hubs: Seq<HubRow>, owner: Seq<char>) -> nat {
    hubs.filter(is_owned(owner)).len()
}

/// How many hubs are live and not suspended.
pub open spec fn hosted_count(hubs: Seq<HubRow>) -> nat {
    hubs.filter(is_hosted()).len()
}

/// How many live hubs there are.
pub fn count_live(hubs: &Vec<HubRow>) -> (r: i64)
    requires
        hubs@.len() <= i64::MAX,
    ensures
        r == live_count(hubs@),
{
    let ghost p = is_live();
    let mut n: i64 = 0;
    let mut i: usize = 0;
    assert(hubs@.take(0) =~= Seq::<HubRow>::empty());
    reveal(Seq::filter);
    while i < hubs.len()
        invariant
            hubs@.len() <= i64::MAX,
            i <= hubs@.len(),
            p == is_live(),
            n == hubs@.take(i as int).filter(p).len(),
            n <= i,
        decreases hubs@.len() - i,
    {
        proof {
            lemma_filter_step(hubs@, p, i as int);
        }
        if hubs[i].deleted_at.is_none() {
            n = n + 1;
        }
        i = i + 1;
    }
    assert(hubs@.take(hubs@.len() as int) =~= hubs@);
    n
}

/// How many live hubs the identity owns.
pub fn count_owned(hubs: &Vec<HubRow>, owner: &str) -> (r: i64)
    requires
        hubs@.len() <= i64::MAX,
    ensures
        r == owned_count(hubs@, owner@),
{
    let ghost p = is_owned(owner@);
    let mut n: i64 = 0;
    let mut i: usize = 0;
    assert(hubs@.take(0) =~= Seq::<HubRow>::empty());
    reveal(Seq::filter);
    while i < hubs.len()
        invariant
            hubs@.len() <= i64::MAX,
            i <= hubs@.len(),
            p == is_owned(owner@),
            n == hubs@.take(i as int).filter(p).len(),
            n <= i,
        decreases hubs@.len() - i,
    {
        proof {
            lemma_filter_step(hubs@, p, i as int);
        }
        if hubs[i].deleted_at.is_none() && same(hubs[i].owner_pubkey.as_str(), owner) {
            n = n + 1;
        }
        i = i + 1;
    }
    assert(hubs@.take(hubs@.len() as int) =~= hubs@);
    n
}

/// How many hubs the farm says it hosts: those neither deleted nor suspended.
pub fn count_hosted(hubs: &Vec<HubRow>) -> (r: i64)
    requires
        hubs@.len() <= i64::MAX,
    ensures
        r == hosted_count(hubs@),
{
    let ghost p = is_hosted();
    let mut n: i64 = 0;
    let mut i: usize = 0;
    assert(hubs@.take(0) =~= Seq::<HubRow>::empty());
    reveal(Seq::filter);
    while i < hubs.len()
        invariant
            hubs@.len() <= i64::MAX,
            i <= hubs@.len(),
            p == is_hosted(),
            n == hubs@.take(i as int).filter(p).len(),
            n <= i,
        decreases hubs@.len() - i,
    {
        proof {
            lemma_filter_step(hubs@, p, i as int);
        }
        if hubs[i].deleted_at.is_none() && hubs[i].suspended_at.is_none() {
            n = n + 1;
        }
        i = i + 1;
    }
    assert(hubs@.take(hubs@.len() as int) =~= hubs@);
    n
}

/// Whether the entry shows the row.
pub open spec fn shows(e: HubEntry, h: HubRow, farm_url: Seq<char>) -> bool {
    &&& e.id@ == h.id@
    &&& e.name@ == h.name@
    &&& opt_text(e.description) == opt_text(h.description)
    &&& e.visibility@ == h.visibility@
    &&& e.hub_url@ == url_of(farm_url, h.id@)
    &&& e.created_at == h.created_at
    &&& e.suspended_at == h.suspended_at
}

fn entry_of(h: &HubRow, farm_url: &str) -> (e: HubEntry)
    ensures
        shows(e, *h, farm_url@),
{
    HubEntry {
        id: h.id.clone(),
        name: h.name.clone(),
        description: h.description.clone(),
        visibility: h.visibility.clone(),
        hub_url: hub_url(farm_url, h.id.as_str()),
        created_at: h.created_at,
        suspended_at: h.suspended_at,
    }
}

/// Whether the hub is shown to the viewer: a live hub that is public, or that the viewer
/// owns. Someone unknown sees public hubs only, and those only while the directory is public.
pub open spec fn visible(h: HubRow, viewer: Option<Seq<char>>, directory_public: bool) -> bool {
    live(h) && match viewer {
        Some(v) => h.visibility@ == "public"@ || h.owner_pubkey@ == v,
        None => directory_public && h.visibility@ == "public"@,
    }
}

/// Who looks: an authenticated caller under their identity, anyone else as unknown.
pub open spec fn viewer_of(caller: Caller) -> Option<Seq<char>> {
    if caller.auth_refusal() is None {
        Some(caller.sub())
    } else {
        None
    }
}

/// The hubs that the viewer is shown, as a condition on rows.
pub open spec fn is_visible(viewer: Option<Seq<char>>, directory_public: bool) -> spec_fn(
    HubRow,
) -> bool {
    |h: HubRow| visible(h, viewer, directory_public)
}

/// The hubs that the caller is shown, in the order of the rows.
pub fn list_hubs(
    caller: &Caller,
    directory_public: bool,
    hubs: &Vec<HubRow>,
    farm_url: &str,
) -> (r: ListHubsResponse)
    ensures
        ({
            let shown = hubs@.filter(is_visible(viewer_of(*caller), directory_public));
            &&& r.hubs@.len() == shown.len()
            &&& forall|i: int|
                0 <= i < shown.len() ==> shows(#[trigger] r.hubs@[i], shown[i], farm_url@)
        }),
{
    let ghost p = is_visible(viewer_of(*caller), directory_public);
    let viewer: Option<String> = match require_auth(caller) {
        Ok(s) => Some(s),
        Err(_) => None,
    };
    let mut out: Vec<HubEntry> = Vec::new();
    let mut i: usize = 0;
    assert(hubs@.take(0) =~= Seq::<HubRow>::empty());
    reveal(Seq::filter);
    while i < hubs.len()
        invariant
            i <= hubs@.len(),
            opt_text(viewer) == viewer_of(*caller),
            p == is_visible(viewer_of(*caller), directory_public),
            out@.len() == hubs@.take(i as int).filter(p).len(),
            forall|k: int|
                0 <= k < out@.len() ==> shows(
                    #[trigger] out@[k],
                    hubs@.take(i as int).filter(p)[k],
                    farm_url@,
                ),
        decreases hubs@.len() - i,
    {
        proof {
            lemma_filter_step(hubs@, p, i as int);
        }
        let h = &hubs[i];
        let public = same(h.visibility.as_str(), "public");
        let seen = match &viewer {
            Some(v) => public || same(h.owner_pubkey.as_str(), v.as_str()),
            None => directory_public && public,
        };
        if h.deleted_at.is_none() && seen {
            out.push(entry_of(h, farm_url));
        }
        i = i + 1;
    }
    assert(hubs@.take(hubs@.len() as int) =~= hubs@);
    ListHubsResponse { hubs: out }
}

/// Why the policy of the farm forbids the identity a new hub, where it does. A policy that
/// is not known counts as `admin_only`; a farm without a row has no policy yet.
pub open spec fn policy_refusal(
    policy: Option<CreationPolicy>,
    hubs: Seq<HubRow>,
    sub: Seq<char>,
) -> Option<FarmRefusal> {
    match policy {
        None => None,
        Some(p) => if p.creation_policy@ == "disabled"@ {
            Some(refusal(403, "hub_creation_disabled"@))
        } else if p.creation_policy@ == "open"@ {
            if p.max_hubs_per_user > 0 && owned_count(hubs, sub) >= p.max_hubs_per_user {
                Some(refusal(403, "user_quota_exceeded"@))
            } else if p.max_hubs_total > 0 && live_count(hubs) >= p.max_hubs_total {
                Some(refusal(403, "farm_quota_exceeded"@))
            } else {
                None
            }
        } else if opt_text(p.admin_pubkey) != Some(sub) {
            Some(refusal(403, "admin_only"@))
        } else {
            None
        },
    }
}

fn check_policy(policy: &Option<CreationPolicy>, hubs: &Vec<HubRow>, sub: &str) -> (r: Result<
    (),
    FarmError,
>)
    requires
        hubs@.len() <= i64::MAX,
    ensures
        match policy_refusal(*policy, hubs@, sub@) {
            Some(d) => r matches Err(e) && e@ == d,
            None => r is Ok,
        },
{
    proof {
        reveal_strlit("disabled");
        reveal_strlit("open");
        reveal_strlit("admin_only");
        assert("disabled"@.len() != "open"@.len());
        assert("disabled"@.len() != "admin_only"@.len());
        assert("open"@.len() != "admin_only"@.len());
    }
    match policy {
        None => Ok(()),
        Some(p) => {
            let admin = is_admin(&p.admin_pubkey, sub);
            if same(p.creation_policy.as_str(), "disabled") {
                Err(refuse(403, "hub_creation_disabled"))
            } else if same(p.creation_policy.as_str(), "admin_only") {
                if admin {
                    Ok(())
                } else {
                    Err(refuse(403, "admin_only"))
                }
            } else if same(p.creation_policy.as_str(), "open") {
                if p.max_hubs_per_user > 0 && count_owned(hubs, sub) >= p.max_hubs_per_user {
                    return Err(refuse(403, "user_quota_exceeded"));
                }
                if p.max_hubs_total > 0 && count_live(hubs) >= p.max_hubs_total {
                    return Err(refuse(403, "farm_quota_exceeded"));
                }
                Ok(())
            } else if admin {
                Ok(())
            } else {
                Err(refuse(403, "admin_only"))
            }
        },
    }
}

/// Whether the character may stand in the name of a hub.
pub open spec fn name_char(c: char) -> bool {
    letter_or_number(c) || c == ' ' || c == '-'
}

/// Why the name is no name for a hub, where it is none. The length is counted in characters.
pub open spec fn name_refusal(name: Seq<char>) -> Option<FarmRefusal> {
    if name.len() == 0 || name.len() > 64 {
        Some(refusal_with(400, "invalid_name"@, "must be 1-64 chars"@))
    } else if !(forall|i: int| 0 <= i < name.len() ==> name_char(#[trigger] name[i])) {
        Some(refusal_with(400, "invalid_name"@, "only alphanumeric, spaces, hyphens"@))
    } else {
        None
    }
}

fn check_name(name: &str) -> (r: Result<(), FarmError>)
    ensures
        match name_refusal(name@) {
            Some(d) => r matches Err(e) && e@ == d,
            None => r is Ok,
        },
{
    let v = chars_of(name);
    if v.len() == 0 || v.len() > 64 {
        return Err(refuse_with(400, "invalid_name", "must be 1-64 chars".to_owned()));
    }
    let mut i: usize = 0;
    while i < v.len()
        invariant
            v@ == name@,
            i <= v@.len(),
            0 < name@.len() <= 64,
            forall|k: int| 0 <= k < i ==> name_char(#[trigger] v@[k]),
        decreases v@.len() - i,
    {
        let c = v[i];
        if !(is_alphanumeric(c) || c == ' ' || c == '-') {
            assert(!name_char(name@[i as int]));
            return Err(
                refuse_with(400, "invalid_name", "only alphanumeric, spaces, hyphens".to_owned()),
            );
        }
        i = i + 1;
    }
    Ok(())
}

/// Whether the request asks for a public hub. Anything else is private.
pub open spec fn asked_visibility(req: CreateHubRequest) -> Seq<char> {
    if opt_text(req.visibility) == Some("public"@) {
        "public"@
    } else {
        "private"@
    }
}

/// Why the request to create a hub is refused, where it is: who asks, then the policy, then
/// the name.
pub open spec fn creation_refusal(
    caller: Caller,
    policy: Option<CreationPolicy>,
    hubs: Seq<HubRow>,
    req: CreateHubRequest,
) -> Option<FarmRefusal> {
    if caller.auth_refusal() is Some {
        caller.auth_refusal()
    } else if policy_refusal(policy, hubs, caller.sub()) is Some {
        policy_refusal(policy, hubs, caller.sub())
    } else {
        name_refusal(trimmed(req.name@))
    }
}

/// Whether the row is the one that the request creates.
pub open spec fn created(
    h: HubRow,
    owner: Seq<char>,
    req: CreateHubRequest,
    hub_id: Seq<char>,
    hubs_dir: Seq<char>,
    now: i64,
) -> bool {
    &&& h.id@ == hub_id
    &&& h.owner_pubkey@ == owner
    &&& h.name@ == trimmed(req.name@)
    &&& opt_text(h.description) == opt_text(req.description)
    &&& h.visibility@ == asked_visibility(req)
    &&& h.db_path@ == without_trailing_slashes(hubs_dir) + "/"@ + hub_id + ".db"@
    &&& h.created_at == now
    &&& h.suspended_at is None
    &&& h.suspension_reason is None
    &&& h.deleted_at is None
}

/// Creates a hub under the given identifier: the row to store, and the answer.
pub fn create_hub(
    caller: &Caller,
    policy: &Option<CreationPolicy>,
    hubs: &Vec<HubRow>,
    req: &CreateHubRequest,
    hub_id: &str,
    hubs_dir: &str,
    farm_url: &str,
    now: i64,
) -> (r: Result<(HubRow, CreateHubResponse), FarmError>)
    requires
        hubs@.len() <= i64::MAX,
    ensures
        match creation_refusal(*caller, *policy, hubs@, *req) {
            Some(d) => r matches Err(e) && e@ == d,
            None => r matches Ok(x) && created(
                x.0,
                caller.sub(),
                *req,
                hub_id@,
                hubs_dir@,
                now,
            ) && x.1.id@ == hub_id@ && x.1.hub_url@ == url_of(farm_url@, hub_id@),
        },
{
    let sub = match require_auth(caller) {
        Ok(s) => s,
        Err(e) => return Err(e),
    };
    match check_policy(policy, hubs, sub.as_str()) {
        Ok(_) => {},
        Err(e) => return Err(e),
    }
    let name = trim(req.name.as_str());
    match check_name(name.as_str()) {
        Ok(_) => {},
        Err(e) => return Err(e),
    }
    let visibility = if is_text(&req.visibility, "public") {
        "public".to_owned()
    } else {
        "private".to_owned()
    };
    let dir = trim_end_slashes(hubs_dir);
    let mut db_path = concat3(dir.as_str(), "/", hub_id);
    db_path.append(".db");
    let row = HubRow {
        id: hub_id.to_owned(),
        owner_pubkey: sub,
        name,
        description: req.description.clone(),
        visibility,
        db_path,
        created_at: now,
        suspended_at: None,
        suspension_reason: None,
        deleted_at: None,
    };
    let url = hub_url(farm_url, hub_id);
    Ok((row, CreateHubResponse { id: hub_id.to_owned(), hub_url: url }))
}

/// The place of the live hub with the identifier.
pub open spec fn at(hubs: Seq<HubRow>, id: Seq<char>, i: int) -> bool {
    &&& 0 <= i < hubs.len()
    &&& live(hubs[i])
    &&& hubs[i].id@ == id
}

/// Whether there is a live hub with the identifier.
pub open spec fn exists_live(hubs: Seq<HubRow>, id: Seq<char>) -> bool {
    exists|i: int| #[trigger] at(hubs, id, i)
}

fn find_live(hubs: &Vec<HubRow>, id: &str) -> (r: Option<usize>)
    ensures
        match r {
            Some(i) => at(hubs@, id@, i as int),
            None => !exists_live(hubs@, id@),
        },
{
    let mut i: usize = 0;
    while i < hubs.len()
        invariant
            i <= hubs@.len(),
            forall|k: int| 0 <= k < i ==> !#[trigger] at(hubs@, id@, k),
        decreases hubs@.len() - i,
    {
        if hubs[i].deleted_at.is_none() && same(hubs[i].id.as_str(), id) {
            return Some(i);
        }
        i = i + 1;
    }
    None
}

/// The live hub with the identifier.
pub fn get_hub(hubs: &Vec<HubRow>, hub_id: &str, farm_url: &str) -> (r: Result<
    HubEntry,
    FarmError,
>)
    ensures
        if exists_live(hubs@, hub_id@) {
            r matches Ok(e) && exists|i: int| #[trigger]
                at(hubs@, hub_id@, i) && shows(e, hubs@[i], farm_url@)
        } else {
            r matches Err(e) && e@ == refusal(404, "hub_not_found"@)
        },
{
    match find_live(hubs, hub_id) {
        Some(i) => {
            assert(at(hubs@, hub_id@, i as int));
            Ok(entry_of(&hubs[i], farm_url))
        },
        None => Err(refuse(404, "hub_not_found")),
    }
}

/// Why the hub may not be suspended, where it may not: only the admin may, and only a live
/// hub.
pub open spec fn suspension_refusal(
    caller: Caller,
    admin: Option<Seq<char>>,
    hubs: Seq<HubRow>,
    id: Seq<char>,
) -> Option<FarmRefusal> {
    if caller.admin_refusal(admin) is Some {
        caller.admin_refusal(admin)
    } else if !exists_live(hubs, id) {
        Some(refusal(404, "hub_not_found"@))
    } else {
        None
    }
}

/// Since when the hub is suspended after the request: from now on, or not at all where the
/// request ends the suspension.
pub open spec fn suspended_since(req: SuspendRequest, now: i64) -> Option<i64> {
    if req.suspended == Some(false) {
        None
    } else {
        Some(now)
    }
}

/// Whether the row is the one of before, suspended as the request asks. A suspension that ends
/// leaves no reason behind.
pub open spec fn suspended(new: HubRow, before: HubRow, req: SuspendRequest, now: i64) -> bool {
    &&& new.suspended_at == suspended_since(req, now)
    &&& opt_text(new.suspension_reason) == if req.suspended == Some(false) {
        None
    } else {
        opt_text(req.reason)
    }
    &&& new == (HubRow {
        suspended_at: new.suspended_at,
        suspension_reason: new.suspension_reason,
        ..before
    })
}

/// Suspends every row with the identifier, and no other, or ends its suspension.
pub fn suspend_hub(
    caller: &Caller,
    admin_pubkey: &Option<String>,
    hubs: &mut Vec<HubRow>,
    hub_id: &str,
    req: &SuspendRequest,
    now: i64,
) -> (r: Result<SuspendResponse, FarmError>)
    ensures
        final(hubs)@.len() == old(hubs)@.len(),
        match suspension_refusal(*caller, opt_text(*admin_pubkey), old(hubs)@, hub_id@) {
            Some(d) => (r matches Err(e) && e@ == d) && final(hubs)@ == old(hubs)@,
            None => {
                &&& r matches Ok(s) && s.id@ == hub_id@ && s.suspended_at == suspended_since(
                    *req,
                    now,
                )
                &&& forall|i: int|
                    0 <= i < old(hubs)@.len() ==> if old(hubs)@[i].id@ == hub_id@ {
                        suspended(#[trigger] final(hubs)@[i], old(hubs)@[i], *req, now)
                    } else {
                        final(hubs)@[i] == old(hubs)@[i]
                    }
            },
        },
{
    match require_admin(caller, admin_pubkey) {
        Ok(_) => {},
        Err(e) => return Err(e),
    }
    match find_live(hubs, hub_id) {
        Some(i) => {
            assert(at(hubs@, hub_id@, i as int));
        },
        None => return Err(refuse(404, "hub_not_found")),
    }
    let ends = match req.suspended {
        Some(b) => !b,
        None => false,
    };
    let since: Option<i64> = if ends {
        None
    } else {
        Some(now)
    };
    let ghost before = hubs@;
    let mut i: usize = 0;
    while i < hubs.len()
        invariant
            i <= hubs@.len(),
            hubs@.len() == before.len(),
            ends == (req.suspended == Some(false)),
            since == suspended_since(*req, now),
            forall|k: int| i <= k < before.len() ==> hubs@[k] == before[k],
            forall|k: int|
                0 <= k < i ==> if before[k].id@ == hub_id@ {
                    suspended(#[trigger] hubs@[k], before[k], *req, now)
                } else {
                    hubs@[k] == before[k]
                },
        decreases hubs@.len() - i,
    {
        if same(hubs[i].id.as_str(), hub_id) {
            hubs[i].suspended_at = since;
            hubs[i].suspension_reason = if ends {
                None
            } else {
                req.reason.clone()
            };
        }
        i = i + 1;
    }
    Ok(SuspendResponse { id: hub_id.to_owned(), suspended_at: since })
}

/// Ending a suspension undoes it: a hub that was not suspended before, and had no reason for
/// it, is then as it was.
pub proof fn unsuspending_undoes_suspending(
    before: HubRow,
    during: HubRow,
    after: HubRow,
    req: SuspendRequest,
    end: SuspendRequest,
    at: i64,
    now: i64,
)
    requires
        before.suspended_at is None,
        before.suspension_reason is None,
        req.suspended != Some(false),
        end.suspended == Some(false),
        suspended(during, before, req, at),
        suspended(after, during, end, now),
    ensures
        during.suspended_at == Some(at),
        after == before,
{
}

/// The owner of the live hub with the identifier.
pub open spec fn owned_by(hubs: Seq<HubRow>, id: Seq<char>, owner: Seq<char>) -> bool {
    exists|i: int| #[trigger] at(hubs, id, i) && hubs[i].owner_pubkey@ == owner
}

/// Why the hub may not be deleted, where it may not. A hub that is not there is not found,
/// whoever asks; the admin may delete any, everyone else only their own.
pub open spec fn deletion_refusal(
    caller: Caller,
    admin: Option<Seq<char>>,
    hubs: Seq<HubRow>,
    id: Seq<char>,
) -> Option<FarmRefusal> {
    if caller.auth_refusal() is Some {
        caller.auth_refusal()
    } else if !exists_live(hubs, id) {
        Some(refusal(404, "hub_not_found"@))
    } else if admin != Some(caller.sub()) && !owned_by(hubs, id, caller.sub()) {
        Some(refusal(403, "farm_admin_only"@))
    } else {
        None
    }
}

/// Whether the rows are those of before, the ones with the identifier with a time of deletion.
pub open spec fn is_deletion(
    before: Seq<HubRow>,
    after: Seq<HubRow>,
    id: Seq<char>,
    now: i64,
) -> bool {
    &&& after.len() == before.len()
    &&& forall|i: int|
        0 <= i < before.len() ==> #[trigger] after[i] == if before[i].id@ == id {
            HubRow { deleted_at: Some(now), ..before[i] }
        } else {
            before[i]
        }
}

/// Deletes every row with the identifier by giving it a time of deletion, and leaves the
/// others alone.
pub fn delete_hub(
    caller: &Caller,
    admin_pubkey: &Option<String>,
    hubs: &mut Vec<HubRow>,
    hub_id: &str,
    now: i64,
) -> (r: Result<u16, FarmError>)
    requires
        ids_distinct(old(hubs)@),
    ensures
        final(hubs)@.len() == old(hubs)@.len(),
        match deletion_refusal(*caller, opt_text(*admin_pubkey), old(hubs)@, hub_id@) {
            Some(d) => (r matches Err(e) && e@ == d) && final(hubs)@ == old(hubs)@,
            None => r == Ok::<u16, FarmError>(204) && is_deletion(
                old(hubs)@,
                final(hubs)@,
                hub_id@,
                now,
            ),
        },
{
    let sub = match require_auth(caller) {
        Ok(s) => s,
        Err(e) => return Err(e),
    };
    let admin = is_admin(admin_pubkey, sub.as_str());
    match find_live(hubs, hub_id) {
        Some(i) => {
            assert(at(hubs@, hub_id@, i as int));
            let own = same(sub.as_str(), hubs[i].owner_pubkey.as_str());
            assert(owned_by(hubs@, hub_id@, sub@) ==> own) by {
                if owned_by(hubs@, hub_id@, sub@) {
                    let j = choose|j: int|
                        #[trigger] at(hubs@, hub_id@, j) && hubs@[j].owner_pubkey@ == sub@;
                    if j < i {
                        assert(hubs@[j].id@ != hubs@[i as int].id@);
                    } else if i < j {
                        assert(hubs@[i as int].id@ != hubs@[j].id@);
                    }
                }
            }
            if !admin && !own {
                return Err(refuse(403, "farm_admin_only"));
            }
        },
        None => return Err(refuse(404, "hub_not_found")),
    }
    let ghost before = hubs@;
    let mut i: usize = 0;
    while i < hubs.len()
        invariant
            i <= hubs@.len(),
            hubs@.len() == before.len(),
            forall|k: int| i <= k < before.len() ==> hubs@[k] == before[k],
            forall|k: int|
                0 <= k < i ==> #[trigger] hubs@[k] == if before[k].id@ == hub_id@ {
                    HubRow { deleted_at: Some(now), ..before[k] }
                } else {
                    before[k]
                },
        decreases hubs@.len() - i,
    {
        if same(hubs[i].id.as_str(), hub_id) {
            hubs[i].deleted_at = Some(now);
        }
        i = i + 1;
    }
    Ok(204)
}

/// A hub that is not live, or that is private and not the viewer's own, is shown to no one
/// else: every hub that is listed may be seen by the viewer, and every hub that may be seen is
/// listed.
pub proof fn listing_is_visibility(
    hubs: Seq<HubRow>,
    viewer: Option<Seq<char>>,
    directory_public: bool,
    h: HubRow,
)
    ensures
        hubs.filter(is_visible(viewer, directory_public)).contains(h) <==> hubs.contains(h)
            && visible(h, viewer, directory_public),
{
    let p = is_visible(viewer, directory_public);
    let shown = hubs.filter(p);
    if shown.contains(h) {
        hubs.lemma_filter_contains_rev(p, h);
        let k = choose|k: int| 0 <= k < shown.len() && shown[k] == h;
        hubs.lemma_filter_pred(p, k);
    }
    if hubs.contains(h) && p(h) {
        let k = choose|k: int| 0 <= k < hubs.len() && hubs[k] == h;
        hubs.lemma_filter_contains(p, k);
    }
}

/// Storing a hub under an identifier that no row has keeps the identifiers distinct.
pub proof fn creation_keeps_ids_distinct(hubs: Seq<HubRow>, h: HubRow)
    requires
        ids_distinct(hubs),
        !id_taken(hubs, h.id@),
    ensures
        ids_distinct(hubs.push(h)),
{
    let after = hubs.push(h);
    assert forall|i: int, j: int| 0 <= i < j < after.len() implies (#[trigger] after[i]).id@ != (
    #[trigger] after[j]).id@ by {
        if j == hubs.len() {
            assert(hubs[i].id@ != h.id@);
        } else {
            assert(hubs[i].id@ != hubs[j].id@);
        }
    }
}

/// A hub that was created is counted: once more among the live hubs, and once more among its
/// owner's.
pub proof fn creation_counts(
    hubs: Seq<HubRow>,
    h: HubRow,
    owner: Seq<char>,
    req: CreateHubRequest,
    hub_id: Seq<char>,
    hubs_dir: Seq<char>,
    now: i64,
)
    requires
        created(h, owner, req, hub_id, hubs_dir, now),
    ensures
        live_count(hubs.push(h)) == live_count(hubs) + 1,
        owned_count(hubs.push(h), owner) == owned_count(hubs, owner) + 1,
        exists_live(hubs.push(h), hub_id),
{
    reveal(Seq::filter);
    assert(hubs.push(h).drop_last() =~= hubs);
    assert(at(hubs.push(h), hub_id, hubs.len() as int));
}

/// A deleted hub is gone: after the rows with its identifier got a time of deletion, no live
/// hub has it.
pub proof fn deletion_hides(before: Seq<HubRow>, after: Seq<HubRow>, id: Seq<char>, now: i64)
    requires
        is_deletion(before, after, id, now),
    ensures
        !exists_live(after, id),
        forall|other: Seq<char>|
            other != id ==> #[trigger] exists_live(after, other) == exists_live(before, other),
        ids_distinct(before) ==> ids_distinct(after),
{
    assert forall|i: int| !#[trigger] at(after, id, i) by {
        if at(after, id, i) {
            assert(after[i].deleted_at is None);
        }
    }
    assert forall|other: Seq<char>| other != id implies #[trigger] exists_live(after, other)
        == exists_live(before, other) by {
        if exists_live(after, other) {
            let i = choose|i: int| #[trigger] at(after, other, i);
            assert(at(before, other, i));
        }
        if exists_live(before, other) {
            let i = choose|i: int| #[trigger] at(before, other, i);
            assert(after[i] == before[i]);
            assert(at(after, other, i));
        }
    }
    if ids_distinct(before) {
        assert forall|i: int, j: int| 0 <= i < j < after.len() implies (#[trigger] after[i]).id@
            != (#[trigger] after[j]).id@ by {
            assert(before[i].id@ != before[j].id@);
        }
    }
}

/// A deleted hub is in no listing, whoever looks, and no other hub leaves one.
pub proof fn deletion_leaves_the_listings(
    before: Seq<HubRow>,
    after: Seq<HubRow>,
    id: Seq<char>,
    now: i64,
    viewer: Option<Seq<char>>,
    directory_public: bool,
    h: HubRow,
)
    requires
        is_deletion(before, after, id, now),
    ensures
        after.filter(is_visible(viewer, directory_public)).contains(h) <==> h.id@ != id
            && before.filter(is_visible(viewer, directory_public)).contains(h),
{
    listing_is_visibility(before, viewer, directory_public, h);
    listing_is_visibility(after, viewer, directory_public, h);
    if after.contains(h) && live(h) {
        let k = choose|k: int| 0 <= k < after.len() && after[k] == h;
        assert(after[k] == h);
        assert(before[k] == h);
    }
    if before.contains(h) && h.id@ != id {
        let k = choose|k: int| 0 <= k < before.len() && before[k] == h;
        assert(after[k] == h);
    }
}

/// A deletion counts: one hub fewer is live, one fewer is its owner's, and everyone else owns
/// as many as before.
pub proof fn deletion_counts(
    before: Seq<HubRow>,
    after: Seq<HubRow>,
    id: Seq<char>,
    now: i64,
    i: int,
)
    requires
        ids_distinct(before),
        is_deletion(before, after, id, now),
        at(before, id, i),
    ensures
        live_count(after) == live_count(before) - 1,
        owned_count(after, before[i].owner_pubkey@) == owned_count(before, before[i].owner_pubkey@)
            - 1,
        forall|other: Seq<char>|
            other != before[i].owner_pubkey@ ==> #[trigger] owned_count(after, other)
                == owned_count(before, other),
{
    let owner = before[i].owner_pubkey@;
    assert(after =~= before.update(i, HubRow { deleted_at: Some(now), ..before[i] })) by {
        assert forall|k: int| 0 <= k < before.len() && k != i implies after[k] == before[k] by {
            if k < i {
                assert(before[k].id@ != before[i].id@);
            } else {
                assert(before[i].id@ != before[k].id@);
            }
        }
    }
    lemma_count_update(before, is_live(), i, after[i]);
    lemma_count_update(before, is_owned(owner), i, after[i]);
    assert forall|other: Seq<char>| other != owner implies #[trigger] owned_count(after, other)
        == owned_count(before, other) by {
        lemma_count_update(before, is_owned(other), i, after[i]);
    }
}

/// A row that is put in place of another counts in its stead.
proof fn lemma_count_update(rows: Seq<HubRow>, p: spec_fn(HubRow) -> bool, i: int, h: HubRow)
    requires
        0 <= i < rows.len(),
    ensures
        rows.update(i, h).filter(p).len() + (if p(rows[i]) {
            1int
        } else {
            0
        }) == rows.filter(p).len() + (if p(h) {
            1int
        } else {
            0
        }),
    decreases rows.len(),
{
    reveal(Seq::filter);
    let new = rows.update(i, h);
    if i == rows.len() - 1 {
        assert(new.drop_last() =~= rows.drop_last());
    } else {
        assert(new.drop_last() =~= rows.drop_last().update(i, h));
        lemma_count_update(rows.drop_last(), p, i, h);
    }
}

/// Whoever asks without a valid token is told so, whatever the policy, the quotas and the name.
pub proof fn no_token_creates_no_hub(
    caller: Caller,
    policy: Option<CreationPolicy>,
    hubs: Seq<HubRow>,
    req: CreateHubRequest,
)
    requires
        caller.auth_refusal() is Some,
    ensures
        creation_refusal(caller, policy, hubs, req) == caller.auth_refusal(),
        caller.auth_refusal()->0.status == 401,
{
}

/// Where creating hubs is disabled no one creates one, not even the admin.
pub proof fn disabled_blocks_everyone(
    caller: Caller,
    p: CreationPolicy,
    hubs: Seq<HubRow>,
    req: CreateHubRequest,
)
    requires
        p.creation_policy@ == "disabled"@,
    ensures
        creation_refusal(caller, Some(p), hubs, req) is Some,
{
}

/// A hub is created as it was asked for: public where the request says public, private where it
/// says anything else or nothing; under the name without the blanks around it, for the caller,
/// neither suspended nor deleted, and it is reached where its owner is told.
pub proof fn a_hub_is_created_as_asked(
    caller: &Caller,
    policy: &Option<CreationPolicy>,
    hubs: &Vec<HubRow>,
    req: &CreateHubRequest,
    hub_id: &str,
    hubs_dir: &str,
    farm_url: &str,
    now: i64,
    r: Result<(HubRow, CreateHubResponse), FarmError>,
)
    requires
        call_ensures(
            create_hub,
            (caller, policy, hubs, req, hub_id, hubs_dir, farm_url, now),
            r,
        ),
        hubs@.len() <= i64::MAX,
        r is Ok,
    ensures
        ({
            let h = r->Ok_0.0;
            &&& req.visibility is Some && req.visibility->0@ == "public"@ ==> h.visibility@
                == "public"@
            &&& req.visibility is None || req.visibility->0@ != "public"@ ==> h.visibility@
                == "private"@
            &&& h.id@ == hub_id@
            &&& caller.payload is Some && h.owner_pubkey@ == caller.payload->0.sub@
            &&& h.name@ == trimmed(req.name@)
            &&& h.description is Some <==> req.description is Some
            &&& h.description matches Some(d) ==> d@ == req.description->0@
            &&& h.created_at == now
            &&& h.suspended_at is None
            &&& h.suspension_reason is None
            &&& h.deleted_at is None
            &&& r->Ok_0.1.id@ == hub_id@
            &&& r->Ok_0.1.hub_url@ == without_trailing_slashes(farm_url@) + "/hub/"@ + hub_id@
            &&& h.db_path@ == without_trailing_slashes(hubs_dir@) + "/"@ + hub_id@ + ".db"@
        }),
{
}

/// A hub that was asked for as public is then in everyone's list while the directory is public;
/// one that was not is in the list of its owner and of no one else.
pub proof fn a_public_hub_is_in_the_directory(
    caller: &Caller,
    policy: &Option<CreationPolicy>,
    hubs: &Vec<HubRow>,
    req: &CreateHubRequest,
    hub_id: &str,
    hubs_dir: &str,
    farm_url: &str,
    now: i64,
    r: Result<(HubRow, CreateHubResponse), FarmError>,
    viewer: &Caller,
    directory_public: bool,
    then: &Vec<HubRow>,
    list: ListHubsResponse,
)
    requires
        call_ensures(
            create_hub,
            (caller, policy, hubs, req, hub_id, hubs_dir, farm_url, now),
            r,
        ),
        hubs@.len() <= i64::MAX,
        r is Ok,
        forall|i: int| 0 <= i < hubs@.len() ==> (#[trigger] hubs@[i]).id@ != hub_id@,
        then@ == hubs@.push(r->Ok_0.0),
        call_ensures(list_hubs, (viewer, directory_public, then, farm_url), list),
    ensures
        ({
            let known = viewer.header is Some && "Bearer "@.is_prefix_of(viewer.header->0@)
                && viewer.payload is Some;
            let asked_public = req.visibility is Some && req.visibility->0@ == "public"@;
            let own = known && viewer.payload->0.sub@ == caller.payload->0.sub@;
            (exists|k: int|
                0 <= k < list.hubs@.len() && (#[trigger] list.hubs@[k]).id@ == hub_id@) <==> own
                || (asked_public && (known || directory_public))
        }),
{
    reveal_strlit("public");
    reveal_strlit("private");
    assert("public"@.len() != "private"@.len());
    let p = is_visible(viewer_of(*viewer), directory_public);
    let h = r->Ok_0.0;
    let shown = then@.filter(p);
    assert(then@[hubs@.len() as int] == h);
    lemma_kept(then@, p, h);
    if p(h) {
        let k: int = choose|k: int| 0 <= k < shown.len() && shown[k] == h;
        assert(shows(list.hubs@[k], shown[k], farm_url@));
        assert(list.hubs@[k].id@ == hub_id@);
    } else {
        assert forall|k: int| 0 <= k < list.hubs@.len() implies (#[trigger] list.hubs@[k]).id@
            != hub_id@ by {
            assert(shows(list.hubs@[k], shown[k], farm_url@));
            assert(shown.contains(shown[k]));
            lemma_kept(then@, p, shown[k]);
            let j: int = choose|j: int| 0 <= j < then@.len() && then@[j] == shown[k];
            if j < hubs@.len() {
                assert(then@[j] == hubs@[j]);
            }
        }
    }
}

/// What is listed are live hubs, each as it is kept: to someone known the public ones and their
/// own, to anyone else the public ones, and those only while the directory is public. Every such
/// hub is listed.
pub proof fn the_list_shows_what_may_be_seen(
    viewer: &Caller,
    directory_public: bool,
    hubs: &Vec<HubRow>,
    farm_url: &str,
    list: ListHubsResponse,
    i: int,
    k: int,
)
    requires
        call_ensures(list_hubs, (viewer, directory_public, hubs, farm_url), list),
        0 <= i < hubs@.len(),
        0 <= k < list.hubs@.len(),
    ensures
        ({
            let known = viewer.header is Some && "Bearer "@.is_prefix_of(viewer.header->0@)
                && viewer.payload is Some;
            &&& hubs@[i].deleted_at is None && ((known && (hubs@[i].visibility@ == "public"@
                || hubs@[i].owner_pubkey@ == viewer.payload->0.sub@)) || (!known && directory_public
                && hubs@[i].visibility@ == "public"@)) ==> exists|m: int|
                0 <= m < list.hubs@.len() && (#[trigger] list.hubs@[m]).id@ == hubs@[i].id@
                    && list.hubs@[m].name@ == hubs@[i].name@ && list.hubs@[m].visibility@
                    == hubs@[i].visibility@ && list.hubs@[m].created_at == hubs@[i].created_at
                    && list.hubs@[m].suspended_at == hubs@[i].suspended_at
            &&& exists|m: int|
                0 <= m < hubs@.len() && (#[trigger] hubs@[m]).id@ == list.hubs@[k].id@
                    && hubs@[m].name@ == list.hubs@[k].name@ && hubs@[m].visibility@
                    == list.hubs@[k].visibility@ && hubs@[m].deleted_at is None && ((known && (
                hubs@[m].visibility@ == "public"@ || hubs@[m].owner_pubkey@
                    == viewer.payload->0.sub@)) || (!known && directory_public
                    && hubs@[m].visibility@ == "public"@)) && list.hubs@[k].hub_url@
                    == without_trailing_slashes(farm_url@) + "/hub/"@ + hubs@[m].id@
        }),
{
    let p = is_visible(viewer_of(*viewer), directory_public);
    let shown = hubs@.filter(p);
    lemma_kept(hubs@, p, hubs@[i]);
    if p(hubs@[i]) {
        let m: int = choose|m: int| 0 <= m < shown.len() && shown[m] == hubs@[i];
        assert(shows(list.hubs@[m], shown[m], farm_url@));
    }
    assert(shows(list.hubs@[k], shown[k], farm_url@));
    assert(shown.contains(shown[k]));
    lemma_kept(hubs@, p, shown[k]);
    let m: int = choose|m: int| 0 <= m < hubs@.len() && hubs@[m] == shown[k];
    assert(hubs@[m].id@ == list.hubs@[k].id@);
}

/// The policy decides who may create: no one where it is disabled, anyone known where it is open
/// and no limit is reached, else the admin alone. A farm without a row asks for nothing.
pub proof fn the_policy_decides_who_creates(
    caller: &Caller,
    policy: &Option<CreationPolicy>,
    hubs: &Vec<HubRow>,
    req: &CreateHubRequest,
    hub_id: &str,
    hubs_dir: &str,
    farm_url: &str,
    now: i64,
    r: Result<(HubRow, CreateHubResponse), FarmError>,
    owned: i64,
    live: i64,
    sub: &str,
)
    requires
        call_ensures(
            create_hub,
            (caller, policy, hubs, req, hub_id, hubs_dir, farm_url, now),
            r,
        ),
        hubs@.len() <= i64::MAX,
        caller.header is Some && "Bearer "@.is_prefix_of(caller.header->0@),
        caller.payload is Some && caller.payload->0.sub@ == sub@,
        call_ensures(count_owned, (hubs, sub), owned),
        call_ensures(count_live, (hubs,), live),
        0 < trimmed(req.name@).len() <= 64,
        forall|i: int|
            0 <= i < trimmed(req.name@).len() ==> ({
                let c = #[trigger] trimmed(req.name@)[i];
                c == ' ' || c == '-' || ('a' <= c && c <= 'z') || ('A' <= c && c <= 'Z') || ('0'
                    <= c && c <= '9')
            }),
    ensures
        policy is None ==> r is Ok,
        policy is Some && policy->0.creation_policy@ == "disabled"@ ==> r is Err && r->Err_0.status
            == 403 && r->Err_0.error@ == "hub_creation_disabled"@,
        policy is Some && policy->0.creation_policy@ == "open"@ ==> (r is Ok <==> (
        policy->0.max_hubs_per_user <= 0 || owned < policy->0.max_hubs_per_user) && (
        policy->0.max_hubs_total <= 0 || live < policy->0.max_hubs_total)),
        policy is Some && policy->0.creation_policy@ == "open"@ && r is Err ==> r->Err_0.status
            == 403 && r->Err_0.error@ == if policy->0.max_hubs_per_user > 0 && owned
            >= policy->0.max_hubs_per_user {
            "user_quota_exceeded"@
        } else {
            "farm_quota_exceeded"@
        },
        policy is Some && policy->0.creation_policy@ == "admin_only"@ ==> (r is Ok
            <==> policy->0.admin_pubkey is Some && policy->0.admin_pubkey->0@ == sub@) && (r is Err
            ==> r->Err_0.status == 403 && r->Err_0.error@ == "admin_only"@),
{
    reveal_strlit("disabled");
    reveal_strlit("open");
    reveal_strlit("admin_only");
    assert("disabled"@.len() != "open"@.len());
    assert("admin_only"@.len() != "open"@.len());
    assert("admin_only"@.len() != "disabled"@.len());
}

/// A hub has a name of one to 64 letters, numbers, blanks and hyphens, without blanks around it;
/// with any other name it is not created, and the answer says so.
pub proof fn a_hub_needs_a_name(
    caller: &Caller,
    policy: &Option<CreationPolicy>,
    hubs: &Vec<HubRow>,
    req: &CreateHubRequest,
    hub_id: &str,
    hubs_dir: &str,
    farm_url: &str,
    now: i64,
    r: Result<(HubRow, CreateHubResponse), FarmError>,
    i: int,
)
    requires
        call_ensures(
            create_hub,
            (caller, policy, hubs, req, hub_id, hubs_dir, farm_url, now),
            r,
        ),
        hubs@.len() <= i64::MAX,
    ensures
        trimmed(req.name@).len() == 0 ==> r is Err,
        trimmed(req.name@).len() > 64 ==> r is Err,
        0 <= i < trimmed(req.name@).len() && trimmed(req.name@)[i] == '/' ==> r is Err,
        0 <= i < trimmed(req.name@).len() && trimmed(req.name@)[i] == '_' ==> r is Err,
        caller.payload is None ==> r is Err && r->Err_0.status == 401,
        trimmed(req.name@).len() == 0 && policy is None && caller.payload is Some && caller.header
            is Some && "Bearer "@.is_prefix_of(caller.header->0@) ==> r->Err_0.status == 400
            && r->Err_0.error@ == "invalid_name"@,
{
    if 0 <= i < trimmed(req.name@).len() && r is Ok {
        assert(name_char(trimmed(req.name@)[i]));
    }
}

/// Hubs are counted one by one: a live hub counts once more among all and among its owner's, a
/// deleted one nowhere, and one that is suspended is not among those that the farm hosts.
pub proof fn every_live_hub_counts_once(
    hubs: &Vec<HubRow>,
    more: &Vec<HubRow>,
    h: HubRow,
    owner: &str,
    all: i64,
    owned: i64,
    hosted: i64,
    all_then: i64,
    owned_then: i64,
    hosted_then: i64,
)
    requires
        call_ensures(count_live, (hubs,), all),
        call_ensures(count_owned, (hubs, owner), owned),
        call_ensures(count_hosted, (hubs,), hosted),
        more@ == hubs@.push(h),
        more@.len() <= i64::MAX,
        call_ensures(count_live, (more,), all_then),
        call_ensures(count_owned, (more, owner), owned_then),
        call_ensures(count_hosted, (more,), hosted_then),
    ensures
        hubs@.len() == 0 ==> all == 0 && owned == 0 && hosted == 0,
        h.deleted_at is Some ==> all_then == all && owned_then == owned && hosted_then == hosted,
        h.deleted_at is None ==> all_then == all + 1,
        h.deleted_at is None && h.owner_pubkey@ == owner@ ==> owned_then == owned + 1,
        h.owner_pubkey@ != owner@ ==> owned_then == owned,
        h.deleted_at is None && h.suspended_at is None ==> hosted_then == hosted + 1,
        h.suspended_at is Some ==> hosted_then == hosted,
{
    reveal(Seq::filter);
    assert(more@.drop_last() =~= hubs@);
    assert(more@.last() == h);
}

/// A live hub is found under its identifier, as it is kept; one that is deleted or was never
/// there is not found.
pub proof fn a_live_hub_is_found(
    hubs: &Vec<HubRow>,
    id: &str,
    farm_url: &str,
    r: Result<HubEntry, FarmError>,
    i: int,
)
    requires
        call_ensures(get_hub, (hubs, id, farm_url), r),
        forall|a: int, b: int|
            0 <= a < b < hubs@.len() ==> (#[trigger] hubs@[a]).id@ != (#[trigger] hubs@[b]).id@,
    ensures
        0 <= i < hubs@.len() && hubs@[i].id@ == id@ && hubs@[i].deleted_at is None ==> r is Ok
            && r->Ok_0.id@ == id@ && r->Ok_0.name@ == hubs@[i].name@ && r->Ok_0.visibility@
            == hubs@[i].visibility@ && r->Ok_0.suspended_at == hubs@[i].suspended_at
            && r->Ok_0.created_at == hubs@[i].created_at && r->Ok_0.hub_url@
            == without_trailing_slashes(farm_url@) + "/hub/"@ + id@,
        (forall|j: int|
            0 <= j < hubs@.len() && (#[trigger] hubs@[j]).id@ == id@ ==> hubs@[j].deleted_at
                is Some) ==> r is Err && r->Err_0.status == 404 && r->Err_0.error@
            == "hub_not_found"@,
{
    if 0 <= i < hubs@.len() && hubs@[i].id@ == id@ && hubs@[i].deleted_at is None {
        assert(at(hubs@, id@, i));
        let j: int = choose|j: int| #[trigger]
            at(hubs@, id@, j) && shows(r->Ok_0, hubs@[j], farm_url@);
        if j < i {
            assert(hubs@[j].id@ != hubs@[i].id@);
        } else if i < j {
            assert(hubs@[i].id@ != hubs@[j].id@);
        }
    }
    if exists_live(hubs@, id@) {
        let j: int = choose|j: int| #[trigger] at(hubs@, id@, j);
        assert(hubs@[j].id@ == id@ && hubs@[j].deleted_at is None);
    }
}

/// Only the admin suspends a hub, from now on and with their reason, or ends its suspension and
/// with it the reason; no other hub is touched, and nothing else of the hub.
pub proof fn the_admin_suspends_one_hub(
    caller: &Caller,
    admin: &Option<String>,
    hubs: &mut Vec<HubRow>,
    id: &str,
    req: &SuspendRequest,
    now: i64,
    r: Result<SuspendResponse, FarmError>,
    i: int,
)
    requires
        call_ensures(suspend_hub, (caller, admin, hubs, id, req, now), r),
        0 <= i < old(hubs)@.len(),
    ensures
        final(hubs)@.len() == old(hubs)@.len(),
        r is Ok ==> caller.payload is Some && admin is Some && admin->0@ == caller.payload->0.sub@,
        caller.header is Some && "Bearer "@.is_prefix_of(caller.header->0@) && caller.payload
            is Some && admin is Some && admin->0@ == caller.payload->0.sub@ && old(hubs)@[i].id@
            == id@ && old(hubs)@[i].deleted_at is None ==> r is Ok,
        r is Err ==> final(hubs)@ == old(hubs)@,
        old(hubs)@[i].id@ != id@ ==> final(hubs)@[i] == old(hubs)@[i],
        r is Ok && old(hubs)@[i].id@ == id@ && req.suspended != Some(false) ==> final(hubs)@[i].suspended_at == Some(now) && opt_text(final(hubs)@[i].suspension_reason)
            == opt_text(req.reason),
        r is Ok && old(hubs)@[i].id@ == id@ && req.suspended == Some(false) ==> final(hubs)@[i].suspended_at is None && final(hubs)@[i].suspension_reason is None,
        final(hubs)@[i].id == old(hubs)@[i].id,
        final(hubs)@[i].owner_pubkey == old(hubs)@[i].owner_pubkey,
        final(hubs)@[i].visibility == old(hubs)@[i].visibility,
        final(hubs)@[i].deleted_at == old(hubs)@[i].deleted_at,
        r matches Ok(s) ==> s.id@ == id@ && s.suspended_at == if req.suspended == Some(false) {
            None::<i64>
        } else {
            Some(now)
        },
{
    if old(hubs)@[i].id@ == id@ && old(hubs)@[i].deleted_at is None {
        assert(at(old(hubs)@, id@, i));
    }
}

/// The admin deletes any live hub and an owner their own; anyone else, and whoever names a hub
/// that is not there, deletes nothing. A deletion touches no other hub.
pub proof fn owners_and_the_admin_delete(
    caller: &Caller,
    admin: &Option<String>,
    hubs: &mut Vec<HubRow>,
    id: &str,
    now: i64,
    r: Result<u16, FarmError>,
    i: int,
)
    requires
        call_ensures(delete_hub, (caller, admin, hubs, id, now), r),
        forall|a: int, b: int|
            0 <= a < b < old(hubs)@.len() ==> (#[trigger] old(hubs)@[a]).id@ != (#[trigger] old(hubs)@[b]).id@,
        0 <= i < old(hubs)@.len(),
        caller.header is Some && "Bearer "@.is_prefix_of(caller.header->0@),
        caller.payload is Some,
    ensures
        final(hubs)@.len() == old(hubs)@.len(),
        old(hubs)@[i].id@ == id@ && old(hubs)@[i].deleted_at is None ==> (r is Ok
            <==> old(hubs)@[i].owner_pubkey@ == caller.payload->0.sub@ || (admin is Some
            && admin->0@ == caller.payload->0.sub@)),
        old(hubs)@[i].id@ == id@ && old(hubs)@[i].deleted_at is None && r is Err
            ==> r->Err_0.status == 403,
        (forall|j: int|
            0 <= j < old(hubs)@.len() && (#[trigger] old(hubs)@[j]).id@ == id@
                ==> old(hubs)@[j].deleted_at is Some) ==> r is Err && r->Err_0.status == 404,
        r is Err ==> final(hubs)@ == old(hubs)@,
        r is Ok && old(hubs)@[i].id@ == id@ ==> final(hubs)@[i].deleted_at == Some(now)
            && final(hubs)@[i].owner_pubkey == old(hubs)@[i].owner_pubkey && final(hubs)@[i].name
            == old(hubs)@[i].name,
        old(hubs)@[i].id@ != id@ ==> final(hubs)@[i] == old(hubs)@[i],
        r matches Ok(s) ==> s == 204,
{
    if old(hubs)@[i].id@ == id@ && old(hubs)@[i].deleted_at is None {
        assert(at(old(hubs)@, id@, i));
        if owned_by(old(hubs)@, id@, caller.sub()) {
            let j: int = choose|j: int| #[trigger]
                at(old(hubs)@, id@, j) && old(hubs)@[j].owner_pubkey@ == caller.sub();
            if j < i {
                assert(old(hubs)@[j].id@ != old(hubs)@[i].id@);
            } else if i < j {
                assert(old(hubs)@[i].id@ != old(hubs)@[j].id@);
            }
        }
    }
    if exists_live(old(hubs)@, id@) {
        let j: int = choose|j: int| #[trigger] at(old(hubs)@, id@, j);
        assert(old(hubs)@[j].id@ == id@ && old(hubs)@[j].deleted_at is None);
    }
}

/// An identifier is free where no row has it, not even a deleted one.
pub proof fn a_free_identifier_is_no_ones(hubs: &Vec<HubRow>, id: String, r: Option<String>)
    requires
        call_ensures(free_hub_id, (hubs, id), r),
    ensures
        r is Some <==> forall|i: int| 0 <= i < hubs@.len() ==> (#[trigger] hubs@[i]).id@ != id@,
        r is Some ==> r == Some(id),
{
}

/// A hub is reached under the address of the farm, however many slashes that ends with.
pub proof fn a_hub_is_reached_under_the_farm(farm_url: &str, id: &str, r: String, base: String)
    requires
        call_ensures(hub_url, (farm_url, id), r),
        call_ensures(trim_end_slashes, (farm_url,), base),
    ensures
        r@ == base@ + "/hub/"@ + id@,
{
}

/// An identifier that is drawn has eight hexadecimal digits and is no hub's.
pub proof fn a_drawn_identifier_is_free(hubs: &Vec<HubRow>, r: Option<String>, i: int)
    requires
        call_ensures(draw_hub_id, (hubs,), r),
    ensures
        r is Some ==> r->0@.len() == 8,
        r is Some && 0 <= i < hubs@.len() ==> hubs@[i].id@ != r->0@,
{
}

} // verus!
