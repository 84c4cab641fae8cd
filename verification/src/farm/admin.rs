//! Administration of a farm: its settings, quotas, users and sessions.
use vstd::prelude::*;
use crate::codec::{
    is_json, json_of_strings, json_or, json_valid, strings_of_json, strings_to_json,
};
use crate::farm::hubs::{
    count_live, count_owned, created, creation_counts, creation_refusal, live_count, name_refusal,
    owned_count, policy_refusal, CreateHubRequest, CreationPolicy, HubRow,
};
use crate::farm::{
    refusal, refusal_with, refuse, refuse_with, require_admin, require_auth, Caller, FarmError,
    FarmRefusal,
};
use crate::rows::{lemma_filter_step, lemma_kept};
use crate::text::{
    chars_of, concat2, lemma_text_lt_irreflexive, lemma_text_lt_total, lemma_text_lt_transitive,
    less, opt_text, same, text_lt, texts, trimmed,
};

verus! {

/// The one row that describes the farm. Languages and tags are kept as JSON text.
pub struct FarmRow {
    pub name: String,
    pub description: Option<String>,
    pub directory_public: i64,
    pub creation_policy: String,
    pub max_hubs_per_user: i64,
    pub max_hubs_total: i64,
    pub allow_discovery_listing: i64,
    pub languages: String,
    pub tags: String,
    pub country: Option<String>,
    pub region: Option<String>,
    pub admin_pubkey: Option<String>,
}

/// The settings as the admin sees them. Languages and tags are JSON text.
pub struct FarmSettingsResponse {
    pub name: String,
    pub description: Option<String>,
    pub directory_public: bool,
    pub creation_policy: String,
    pub max_hubs_per_user: i64,
    pub max_hubs_total: i64,
    pub allow_discovery_listing: bool,
    pub languages: String,
    pub tags: String,
    pub country: Option<String>,
    pub region: Option<String>,
    pub admin_pubkey: Option<String>,
}

pub struct PatchSettingsRequest {
    pub name: Option<String>,
    pub description: Option<String>,
    pub directory_public: Option<bool>,
    pub creation_policy: Option<String>,
    pub max_hubs_per_user: Option<i64>,
    pub max_hubs_total: Option<i64>,
    pub allow_discovery_listing: Option<bool>,
    pub languages: Option<Vec<String>>,
    pub tags: Option<Vec<String>>,
    pub country: Option<String>,
    pub region: Option<String>,
}

pub struct HubQuotaResponse {
    pub creation_policy: String,
    pub hubs_owned: i64,
    pub max_hubs_per_user: i64,
    pub quota_remaining: Option<i64>,
    pub farm_hubs_total: i64,
    pub max_hubs_total: i64,
    pub farm_quota_remaining: Option<i64>,
}

pub struct ListUsersQuery {
    pub limit: Option<i64>,
    pub cursor: Option<String>,
}

pub struct UserEntry {
    pub public_key: String,
    pub first_seen_at: i64,
    pub last_seen_at: i64,
    pub hubs_owned: i64,
    pub active_sessions: i64,
}

pub struct ListUsersResponse {
    pub users: Vec<UserEntry>,
    pub total: i64,
}

pub struct RevokeSessionsResponse {
    pub revoked: u64,
}

/// What anyone may learn of a farm that lets itself be discovered.
pub struct PublicInfoResponse {
    pub kind: String,
    pub name: String,
    pub description: Option<String>,
    pub creation_policy: String,
    pub hub_count: i64,
    pub max_hubs_total: i64,
    pub allow_discovery_listing: bool,
    pub country: Option<String>,
    pub region: Option<String>,
    pub languages: String,
    pub tags: String,
}

/// A user of the farm.
pub struct FarmUserRow {
    pub public_key: String,
    pub first_seen_at: i64,
    pub last_seen_at: i64,
}

/// A session of a user of the farm.
pub struct FarmSessionRow {
    pub jti: String,
    pub public_key: String,
    pub expires_at: i64,
    pub revoked_at: Option<i64>,
    pub revoked_manually: bool,
}

/// The admin of the farm.
pub open spec fn admin_of(row: Option<FarmRow>) -> Option<Seq<char>> {
    match row {
        Some(r) => opt_text(r.admin_pubkey),
        None => None,
    }
}

fn admin_pubkey(row: &Option<FarmRow>) -> (r: Option<String>)
    ensures
        opt_text(r) == admin_of(*row),
{
    match row {
        Some(f) => f.admin_pubkey.clone(),
        None => None,
    }
}

/// Whether the tag is one that a farm may carry.
pub open spec fn valid_tag(t: Seq<char>) -> bool {
    t == "gaming"@ || t == "professional"@ || t == "creative"@ || t == "education"@ || t
        == "community"@ || t == "18plus"@
}

fn is_valid_tag(t: &str) -> (r: bool)
    ensures
        r == valid_tag(t@),
{
    same(t, "gaming") || same(t, "professional") || same(t, "creative") || same(t, "education")
        || same(t, "community") || same(t, "18plus")
}

/// Whether the text is one of the three creation policies.
pub open spec fn valid_policy(v: Seq<char>) -> bool {
    v == "open"@ || v == "admin_only"@ || v == "disabled"@
}

/// Whether the text is one of the three creation policies.
pub fn validate_creation_policy(v: &str) -> (r: bool)
    ensures
        r == valid_policy(v@),
{
    same(v, "open") || same(v, "admin_only") || same(v, "disabled")
}

/// Whether the text is a language code: two lower-case letters of ASCII.
pub open spec fn valid_language(code: Seq<char>) -> bool {
    code.len() == 2 && forall|i: int|
        0 <= i < code.len() ==> 'a' <= #[trigger] code[i] && code[i] <= 'z'
}

/// Whether the text is a language code: two lower-case letters of ASCII.
pub fn validate_language(code: &str) -> (r: bool)
    ensures
        r == valid_language(code@),
{
    let v = chars_of(code);
    if v.len() != 2 {
        return false;
    }
    let first = v[0];
    let second = v[1];
    assert(code@[0] == first && code@[1] == second);
    'a' <= first && first <= 'z' && 'a' <= second && second <= 'z'
}

/// The first text of the list for which the condition fails.
pub open spec fn first_failing(
    v: Seq<Seq<char>>,
    holds: spec_fn(Seq<char>) -> bool,
) -> Option<Seq<char>>
    decreases v.len(),
{
    if v.len() == 0 {
        None
    } else if !holds(v[0]) {
        Some(v[0])
    } else {
        first_failing(v.skip(1), holds)
    }
}

/// What stands before a place of the list is skipped where it passes.
proof fn lemma_first_failing(v: Seq<Seq<char>>, holds: spec_fn(Seq<char>) -> bool, i: int)
    requires
        0 <= i < v.len(),
    ensures
        first_failing(v.skip(i), holds) == if holds(v[i]) {
            first_failing(v.skip(i + 1), holds)
        } else {
            Some(v[i])
        },
{
    assert(v.skip(i).skip(1) =~= v.skip(i + 1));
}

/// Why the tags may not stand, where they may not.
pub open spec fn tags_refusal(tags: Seq<Seq<char>>) -> Option<FarmRefusal> {
    if tags.len() > 3 {
        Some(refusal_with(400, "invalid_tag"@, "max 3 tags"@))
    } else {
        match first_failing(tags, |t: Seq<char>| valid_tag(t)) {
            Some(t) => Some(refusal_with(400, "invalid_tag"@, "unknown tag: "@ + t)),
            None => None,
        }
    }
}

/// Checks the tags of a farm.
pub fn validate_tags(tags: &Vec<String>) -> (r: Result<(), FarmError>)
    ensures
        match tags_refusal(texts(tags@)) {
            Some(d) => r matches Err(e) && e@ == d,
            None => r is Ok,
        },
{
    if tags.len() > 3 {
        return Err(refuse_with(400, "invalid_tag", "max 3 tags".to_owned()));
    }
    let ghost t = texts(tags@);
    let ghost holds = |t: Seq<char>| valid_tag(t);
    let mut i: usize = 0;
    assert(t.skip(0) =~= t);
    while i < tags.len()
        invariant
            t == texts(tags@),
            t.len() <= 3,
            holds == (|t: Seq<char>| valid_tag(t)),
            i <= tags@.len(),
            first_failing(t, holds) == first_failing(t.skip(i as int), holds),
        decreases tags@.len() - i,
    {
        proof {
            lemma_first_failing(t, holds, i as int);
        }
        if !is_valid_tag(tags[i].as_str()) {
            return Err(
                refuse_with(400, "invalid_tag", concat2("unknown tag: ", tags[i].as_str())),
            );
        }
        i = i + 1;
    }
    Ok(())
}

/// Why the languages may not stand, where they may not.
pub open spec fn languages_refusal(langs: Seq<Seq<char>>) -> Option<FarmRefusal> {
    if langs.len() == 0 || langs.len() > 5 {
        Some(refusal_with(400, "invalid_value"@, "languages must be 1-5 items"@))
    } else {
        match first_failing(langs, |t: Seq<char>| valid_language(t)) {
            Some(t) => Some(
                refusal_with(400, "invalid_value"@, "invalid BCP-47 code: "@ + t),
            ),
            None => None,
        }
    }
}

/// Checks the languages of a farm.
pub fn validate_languages(langs: &Vec<String>) -> (r: Result<(), FarmError>)
    ensures
        match languages_refusal(texts(langs@)) {
            Some(d) => r matches Err(e) && e@ == d,
            None => r is Ok,
        },
{
    if langs.len() == 0 || langs.len() > 5 {
        return Err(
            refuse_with(400, "invalid_value", "languages must be 1-5 items".to_owned()),
        );
    }
    let ghost t = texts(langs@);
    let ghost holds = |t: Seq<char>| valid_language(t);
    let mut i: usize = 0;
    assert(t.skip(0) =~= t);
    while i < langs.len()
        invariant
            t == texts(langs@),
            0 < t.len() <= 5,
            holds == (|t: Seq<char>| valid_language(t)),
            i <= langs@.len(),
            first_failing(t, holds) == first_failing(t.skip(i as int), holds),
        decreases langs@.len() - i,
    {
        proof {
            lemma_first_failing(t, holds, i as int);
        }
        if !validate_language(langs[i].as_str()) {
            return Err(
                refuse_with(
                    400,
                    "invalid_value",
                    concat2("invalid BCP-47 code: ", langs[i].as_str()),
                ),
            );
        }
        i = i + 1;
    }
    Ok(())
}

fn json_or_text(s: &str, other: &str) -> (r: String)
    ensures
        r@ == json_or(s@, other@),
{
    if json_valid(s) {
        s.to_owned()
    } else {
        other.to_owned()
    }
}

/// Whether the settings show the row. A list that cannot be read shows as its default.
pub open spec fn settings_show(s: FarmSettingsResponse, row: FarmRow) -> bool {
    &&& s.name@ == row.name@
    &&& opt_text(s.description) == opt_text(row.description)
    &&& s.directory_public == (row.directory_public != 0)
    &&& s.creation_policy@ == row.creation_policy@
    &&& s.max_hubs_per_user == row.max_hubs_per_user
    &&& s.max_hubs_total == row.max_hubs_total
    &&& s.allow_discovery_listing == (row.allow_discovery_listing != 0)
    &&& s.languages@ == json_or(row.languages@, "[\"en\"]"@)
    &&& s.tags@ == json_or(row.tags@, "[]"@)
    &&& opt_text(s.country) == opt_text(row.country)
    &&& opt_text(s.region) == opt_text(row.region)
    &&& opt_text(s.admin_pubkey) == opt_text(row.admin_pubkey)
}

fn settings_of(row: &FarmRow) -> (s: FarmSettingsResponse)
    ensures
        settings_show(s, *row),
{
    FarmSettingsResponse {
        name: row.name.clone(),
        description: row.description.clone(),
        directory_public: row.directory_public != 0,
        creation_policy: row.creation_policy.clone(),
        max_hubs_per_user: row.max_hubs_per_user,
        max_hubs_total: row.max_hubs_total,
        allow_discovery_listing: row.allow_discovery_listing != 0,
        languages: json_or_text(row.languages.as_str(), "[\"en\"]"),
        tags: json_or_text(row.tags.as_str(), "[]"),
        country: row.country.clone(),
        region: row.region.clone(),
        admin_pubkey: row.admin_pubkey.clone(),
    }
}

/// The settings, for the admin.
pub fn get_settings(caller: &Caller, row: &Option<FarmRow>) -> (r: Result<
    FarmSettingsResponse,
    FarmError,
>)
    ensures
        match caller.admin_refusal(admin_of(*row)) {
            Some(d) => r matches Err(e) && e@ == d,
            None => row is Some && (r matches Ok(s) && settings_show(s, row->0)),
        },
{
    let admin = admin_pubkey(row);
    match require_admin(caller, &admin) {
        Ok(_) => {},
        Err(e) => return Err(e),
    }
    match row {
        Some(f) => Ok(settings_of(f)),
        None => Err(refuse(500, "farm_row_missing")),
    }
}

/// Why the change of settings may not stand, where it may not: the policy, then the tags,
/// then the languages.
pub open spec fn patch_refusal(req: PatchSettingsRequest) -> Option<FarmRefusal> {
    if req.creation_policy is Some && !valid_policy(req.creation_policy->0@) {
        Some(
            refusal_with(
                400,
                "invalid_value"@,
                "creation_policy must be open, admin_only, or disabled"@,
            ),
        )
    } else if req.tags is Some && tags_refusal(texts(req.tags->0@)) is Some {
        tags_refusal(texts(req.tags->0@))
    } else if req.languages is Some {
        languages_refusal(texts(req.languages->0@))
    } else {
        None
    }
}

/// The value asked for, or the one that stands.
pub open spec fn text_or(asked: Option<String>, standing: String) -> Seq<char> {
    match asked {
        Some(s) => s@,
        None => standing@,
    }
}

/// The optional value asked for, or the one that stands.
pub open spec fn opt_or(asked: Option<String>, standing: Option<String>) -> Option<Seq<char>> {
    match asked {
        Some(s) => Some(s@),
        None => opt_text(standing),
    }
}

/// The list asked for as JSON text, or the text that stands.
pub open spec fn list_or(asked: Option<Vec<String>>, standing: String) -> Seq<char> {
    match asked {
        Some(v) => json_of_strings(texts(v@)),
        None => standing@,
    }
}

/// Whether the row is the old one with the change made: each field that the request gives,
/// and every other as it stood.
pub open spec fn patched(new: FarmRow, before: FarmRow, req: PatchSettingsRequest) -> bool {
    &&& new.name@ == text_or(req.name, before.name)
    &&& opt_text(new.description) == opt_or(req.description, before.description)
    &&& new.directory_public == match req.directory_public {
        Some(b) => if b {
            1i64
        } else {
            0
        },
        None => before.directory_public,
    }
    &&& new.creation_policy@ == text_or(req.creation_policy, before.creation_policy)
    &&& new.max_hubs_per_user == match req.max_hubs_per_user {
        Some(n) => n,
        None => before.max_hubs_per_user,
    }
    &&& new.max_hubs_total == match req.max_hubs_total {
        Some(n) => n,
        None => before.max_hubs_total,
    }
    &&& new.allow_discovery_listing == match req.allow_discovery_listing {
        Some(b) => if b {
            1i64
        } else {
            0
        },
        None => before.allow_discovery_listing,
    }
    &&& new.languages@ == list_or(req.languages, before.languages)
    &&& new.tags@ == list_or(req.tags, before.tags)
    &&& opt_text(new.country) == opt_or(req.country, before.country)
    &&& opt_text(new.region) == opt_or(req.region, before.region)
    &&& opt_text(new.admin_pubkey) == opt_text(before.admin_pubkey)
}

/// Whether the lists that the request gives can be read from the settings again.
pub open spec fn reads_back(s: FarmSettingsResponse, req: PatchSettingsRequest) -> bool {
    &&& match req.languages {
        Some(v) => strings_of_json(s.languages@) == Some(texts(v@)),
        None => true,
    }
    &&& match req.tags {
        Some(v) => strings_of_json(s.tags@) == Some(texts(v@)),
        None => true,
    }
}

/// A change that gives nothing changes nothing that the settings show.
pub proof fn empty_patch_changes_nothing(
    new: FarmRow,
    before: FarmRow,
    req: PatchSettingsRequest,
    s: FarmSettingsResponse,
)
    requires
        patched(new, before, req),
        req.name is None,
        req.description is None,
        req.directory_public is None,
        req.creation_policy is None,
        req.max_hubs_per_user is None,
        req.max_hubs_total is None,
        req.allow_discovery_listing is None,
        req.languages is None,
        req.tags is None,
        req.country is None,
        req.region is None,
    ensures
        settings_show(s, new) == settings_show(s, before),
        patch_refusal(req) is None,
{
}

/// Making the same change twice is making it once.
pub proof fn patch_is_idempotent(
    once: FarmRow,
    twice: FarmRow,
    before: FarmRow,
    req: PatchSettingsRequest,
    s: FarmSettingsResponse,
)
    requires
        patched(once, before, req),
        patched(twice, once, req),
    ensures
        settings_show(s, once) == settings_show(s, twice),
{
}

fn pick_text(asked: &Option<String>, standing: &String) -> (r: String)
    ensures
        r@ == text_or(*asked, *standing),
{
    match asked {
        Some(s) => s.clone(),
        None => standing.clone(),
    }
}

fn pick_opt(asked: &Option<String>, standing: &Option<String>) -> (r: Option<String>)
    ensures
        opt_text(r) == opt_or(*asked, *standing),
{
    match asked {
        Some(s) => Some(s.clone()),
        None => standing.clone(),
    }
}

fn pick_list(asked: &Option<Vec<String>>, standing: &String) -> (r: String)
    ensures
        r@ == list_or(*asked, *standing),
        match asked {
            Some(v) => is_json(r@) && strings_of_json(r@) == Some(texts(v@)),
            None => true,
        },
{
    match asked {
        Some(v) => strings_to_json(v),
        None => standing.clone(),
    }
}

fn pick_flag(asked: Option<bool>, standing: i64) -> (r: i64)
    ensures
        r == match asked {
            Some(b) => if b {
                1i64
            } else {
                0
            },
            None => standing,
        },
{
    match asked {
        Some(b) => if b {
            1
        } else {
            0
        },
        None => standing,
    }
}

/// Changes the settings: the row to store, and the settings as they then stand.
pub fn patch_settings(
    caller: &Caller,
    row: &Option<FarmRow>,
    req: &PatchSettingsRequest,
) -> (r: Result<(FarmRow, FarmSettingsResponse), FarmError>)
    ensures
        match caller.admin_refusal(admin_of(*row)) {
            Some(d) => r matches Err(e) && e@ == d,
            None => match patch_refusal(*req) {
                Some(d) => r matches Err(e) && e@ == d,
                None => row is Some && (r matches Ok(x) && patched(x.0, row->0, *req)
                    && settings_show(x.1, x.0) && reads_back(x.1, *req)),
            },
        },
{
    let admin = admin_pubkey(row);
    match require_admin(caller, &admin) {
        Ok(_) => {},
        Err(e) => return Err(e),
    }
    if let Some(policy) = &req.creation_policy {
        if !validate_creation_policy(policy.as_str()) {
            return Err(
                refuse_with(
                    400,
                    "invalid_value",
                    "creation_policy must be open, admin_only, or disabled".to_owned(),
                ),
            );
        }
    }
    if let Some(tags) = &req.tags {
        match validate_tags(tags) {
            Ok(_) => {},
            Err(e) => return Err(e),
        }
    }
    if let Some(langs) = &req.languages {
        match validate_languages(langs) {
            Ok(_) => {},
            Err(e) => return Err(e),
        }
    }
    match row {
        Some(f) => {
            let new = FarmRow {
                name: pick_text(&req.name, &f.name),
                description: pick_opt(&req.description, &f.description),
                directory_public: pick_flag(req.directory_public, f.directory_public),
                creation_policy: pick_text(&req.creation_policy, &f.creation_policy),
                max_hubs_per_user: match req.max_hubs_per_user {
                    Some(n) => n,
                    None => f.max_hubs_per_user,
                },
                max_hubs_total: match req.max_hubs_total {
                    Some(n) => n,
                    None => f.max_hubs_total,
                },
                allow_discovery_listing: pick_flag(
                    req.allow_discovery_listing,
                    f.allow_discovery_listing,
                ),
                languages: pick_list(&req.languages, &f.languages),
                tags: pick_list(&req.tags, &f.tags),
                country: pick_opt(&req.country, &f.country),
                region: pick_opt(&req.region, &f.region),
                admin_pubkey: f.admin_pubkey.clone(),
            };
            let shown = settings_of(&new);
            Ok((new, shown))
        },
        None => Err(refuse(500, "farm_row_missing")),
    }
}

/// What is left of a limit: nothing is said where there is no limit, which is written 0.
pub open spec fn remaining(limit: int, used: int) -> Option<int> {
    if limit == 0 {
        None
    } else if limit > used {
        Some(limit - used)
    } else {
        Some(0)
    }
}

fn quota_left(limit: i64, used: i64) -> (r: Option<i64>)
    requires
        0 <= used,
    ensures
        r == match remaining(limit as int, used as int) {
            Some(n) => Some(n as i64),
            None => None::<i64>,
        },
{
    if limit == 0 {
        None
    } else if limit > used {
        Some(limit - used)
    } else {
        Some(0)
    }
}

/// How many hubs the caller may still create.
pub fn me_hub_quota(caller: &Caller, row: &Option<FarmRow>, hubs: &Vec<HubRow>) -> (r: Result<
    HubQuotaResponse,
    FarmError,
>)
    requires
        hubs@.len() <= i64::MAX,
    ensures
        match caller.auth_refusal() {
            Some(d) => r matches Err(e) && e@ == d,
            None => match row {
                None => r matches Err(e) && e@ == refusal(500, "farm_row_missing"@),
                Some(f) => r matches Ok(q) && {
                    &&& q.creation_policy@ == f.creation_policy@
                    &&& q.hubs_owned == owned_count(hubs@, caller.sub())
                    &&& q.max_hubs_per_user == f.max_hubs_per_user
                    &&& q.quota_remaining == match remaining(
                        f.max_hubs_per_user as int,
                        owned_count(hubs@, caller.sub()) as int,
                    ) {
                        Some(n) => Some(n as i64),
                        None => None::<i64>,
                    }
                    &&& q.farm_hubs_total == live_count(hubs@)
                    &&& q.max_hubs_total == f.max_hubs_total
                    &&& q.farm_quota_remaining == match remaining(
                        f.max_hubs_total as int,
                        live_count(hubs@) as int,
                    ) {
                        Some(n) => Some(n as i64),
                        None => None::<i64>,
                    }
                },
            },
        },
{
    let sub = match require_auth(caller) {
        Ok(s) => s,
        Err(e) => return Err(e),
    };
    match row {
        None => Err(refuse(500, "farm_row_missing")),
        Some(f) => {
            let hubs_owned = count_owned(hubs, sub.as_str());
            let farm_hubs_total = count_live(hubs);
            Ok(
                HubQuotaResponse {
                    creation_policy: f.creation_policy.clone(),
                    hubs_owned,
                    max_hubs_per_user: f.max_hubs_per_user,
                    quota_remaining: quota_left(f.max_hubs_per_user, hubs_owned),
                    farm_hubs_total,
                    max_hubs_total: f.max_hubs_total,
                    farm_quota_remaining: quota_left(f.max_hubs_total, farm_hubs_total),
                },
            )
        },
    }
}

/// Under the open policy, and with limits that are not negative, a hub may be created exactly
/// while neither quota that the caller is told of is used up.
pub proof fn quota_agrees_with_policy(p: CreationPolicy, hubs: Seq<HubRow>, sub: Seq<char>)
    requires
        p.creation_policy@ == "open"@,
        p.max_hubs_per_user >= 0,
        p.max_hubs_total >= 0,
    ensures
        policy_refusal(Some(p), hubs, sub) is None <==> (remaining(
            p.max_hubs_per_user as int,
            owned_count(hubs, sub) as int,
        ) != Some(0int) && remaining(p.max_hubs_total as int, live_count(hubs) as int) != Some(
            0int,
        )),
{
    reveal_strlit("open");
    reveal_strlit("disabled");
    assert("open"@.len() != "disabled"@.len());
}

/// Under the open policy, and with limits that are not negative, someone known who asks for a
/// hub with a good name gets it exactly while neither quota that they are told of is used up,
/// and is forbidden it otherwise.
pub proof fn quota_decides_creation(
    caller: Caller,
    p: CreationPolicy,
    hubs: Seq<HubRow>,
    req: CreateHubRequest,
)
    requires
        caller.auth_refusal() is None,
        name_refusal(trimmed(req.name@)) is None,
        p.creation_policy@ == "open"@,
        p.max_hubs_per_user >= 0,
        p.max_hubs_total >= 0,
    ensures
        match creation_refusal(caller, Some(p), hubs, req) {
            None => remaining(
                p.max_hubs_per_user as int,
                owned_count(hubs, caller.sub()) as int,
            ) != Some(0int) && remaining(p.max_hubs_total as int, live_count(hubs) as int) != Some(
                0int,
            ),
            Some(d) => d.status == 403 && (remaining(
                p.max_hubs_per_user as int,
                owned_count(hubs, caller.sub()) as int,
            ) == Some(0int) || remaining(p.max_hubs_total as int, live_count(hubs) as int) == Some(
                0int,
            )),
        },
{
    quota_agrees_with_policy(p, hubs, caller.sub());
}

/// A hub that was created uses up one of each quota that has a limit, and leaves the others
/// unlimited.
pub proof fn creation_uses_quota(
    p: CreationPolicy,
    hubs: Seq<HubRow>,
    h: HubRow,
    owner: Seq<char>,
    req: CreateHubRequest,
    hub_id: Seq<char>,
    hubs_dir: Seq<char>,
    now: i64,
)
    requires
        p.creation_policy@ == "open"@,
        p.max_hubs_per_user >= 0,
        p.max_hubs_total >= 0,
        policy_refusal(Some(p), hubs, owner) is None,
        created(h, owner, req, hub_id, hubs_dir, now),
    ensures
        owned_count(hubs.push(h), owner) == owned_count(hubs, owner) + 1,
        live_count(hubs.push(h)) == live_count(hubs) + 1,
        remaining(p.max_hubs_per_user as int, owned_count(hubs.push(h), owner) as int)
            == match remaining(p.max_hubs_per_user as int, owned_count(hubs, owner) as int) {
            Some(k) => Some(k - 1),
            None => None,
        },
        remaining(p.max_hubs_total as int, live_count(hubs.push(h)) as int) == match remaining(
            p.max_hubs_total as int,
            live_count(hubs) as int,
        ) {
            Some(k) => Some(k - 1),
            None => None,
        },
{
    creation_counts(hubs, h, owner, req, hub_id, hubs_dir, now);
    quota_agrees_with_policy(p, hubs, owner);
}

/// The number of users on a page: 50 where nothing is asked, and never under 1 or over 200.
pub open spec fn page_size(limit: Option<i64>) -> int {
    let asked: int = match limit {
        Some(n) => n as int,
        None => 50,
    };
    if asked > 200 {
        200
    } else if asked < 1 {
        1
    } else {
        asked
    }
}

/// Whether the session counts: neither revoked nor over.
pub open spec fn active(s: FarmSessionRow, now: i64) -> bool {
    s.revoked_at is None && s.expires_at > now
}

/// The active sessions of a user, as a condition on sessions.
pub open spec fn active_of(key: Seq<char>, now: i64) -> spec_fn(FarmSessionRow) -> bool {
    |s: FarmSessionRow| s.public_key@ == key && active(s, now)
}

/// How many active sessions the user has.
pub open spec fn active_count(sessions: Seq<FarmSessionRow>, key: Seq<char>, now: i64) -> nat {
    sessions.filter(active_of(key, now)).len()
}

fn count_active(sessions: &Vec<FarmSessionRow>, key: &str, now: i64) -> (r: i64)
    requires
        sessions@.len() <= i64::MAX,
    ensures
        r == active_count(sessions@, key@, now),
{
    let ghost p = active_of(key@, now);
    let mut n: i64 = 0;
    let mut i: usize = 0;
    assert(sessions@.take(0) =~= Seq::<FarmSessionRow>::empty());
    reveal(Seq::filter);
    while i < sessions.len()
        invariant
            sessions@.len() <= i64::MAX,
            i <= sessions@.len(),
            p == active_of(key@, now),
            n == sessions@.take(i as int).filter(p).len(),
            n <= i,
        decreases sessions@.len() - i,
    {
        proof {
            lemma_filter_step(sessions@, p, i as int);
        }
        if sessions[i].revoked_at.is_none() && sessions[i].expires_at > now && same(
            sessions[i].public_key.as_str(),
            key,
        ) {
            n = n + 1;
        }
        i = i + 1;
    }
    assert(sessions@.take(sessions@.len() as int) =~= sessions@);
    n
}

/// Whether the key comes after the cursor. Without a cursor every key does.
pub open spec fn after(cursor: Option<Seq<char>>, key: Seq<char>) -> bool {
    match cursor {
        Some(c) => text_lt(c, key),
        None => true,
    }
}

/// Whether the user at the place is the next one after the cursor, in the order of the keys.
pub open spec fn next_user(users: Seq<FarmUserRow>, cursor: Option<Seq<char>>, i: int) -> bool {
    &&& 0 <= i < users.len()
    &&& after(cursor, users[i].public_key@)
    &&& forall|j: int|
        0 <= j < users.len() && after(cursor, (#[trigger] users[j]).public_key@) ==> !text_lt(
            users[j].public_key@,
            users[i].public_key@,
        )
}

/// Whether the key is that of the next user after the cursor.
#[verifier::opaque]
pub open spec fn follows(
    users: Seq<FarmUserRow>,
    cursor: Option<Seq<char>>,
    key: Seq<char>,
) -> bool {
    exists|i: int| #[trigger] next_user(users, cursor, i) && users[i].public_key@ == key
}

/// The cursor that stands before a place of a page.
pub open spec fn cursor_at(keys: Seq<Seq<char>>, cursor: Option<Seq<char>>, m: int) -> Option<
    Seq<char>,
> {
    if m == 0 {
        cursor
    } else {
        Some(keys[m - 1])
    }
}

/// Whether no user comes after the cursor.
pub open spec fn exhausted(users: Seq<FarmUserRow>, cursor: Option<Seq<char>>) -> bool {
    forall|j: int| 0 <= j < users.len() ==> !after(cursor, (#[trigger] users[j]).public_key@)
}

/// Whether the keys are those of the users that follow the cursor, one after the other, at
/// most so many: fewer only where no more users follow.
pub open spec fn is_page(
    keys: Seq<Seq<char>>,
    users: Seq<FarmUserRow>,
    cursor: Option<Seq<char>>,
    limit: int,
) -> bool {
    &&& keys.len() <= limit
    &&& forall|m: int|
        0 <= m < keys.len() ==> follows(users, cursor_at(keys, cursor, m), #[trigger] keys[m])
    &&& keys.len() < limit ==> exhausted(users, cursor_at(keys, cursor, keys.len() as int))
}

/// The keys on a page, in order.
pub open spec fn page_keys(page: Seq<UserEntry>) -> Seq<Seq<char>> {
    page.map_values(|u: UserEntry| u.public_key@)
}

/// Whether the entry shows the user with that key, with what they own and hold.
pub open spec fn entry_shows(
    e: UserEntry,
    users: Seq<FarmUserRow>,
    hubs: Seq<HubRow>,
    sessions: Seq<FarmSessionRow>,
    now: i64,
) -> bool {
    &&& exists|i: int|
        0 <= i < users.len() && (#[trigger] users[i]).public_key@ == e.public_key@
            && users[i].first_seen_at == e.first_seen_at && users[i].last_seen_at == e.last_seen_at
    &&& e.hubs_owned == owned_count(hubs, e.public_key@)
    &&& e.active_sessions == active_count(sessions, e.public_key@, now)
}

fn find_next(users: &Vec<FarmUserRow>, cursor: &Option<String>) -> (r: Option<usize>)
    ensures
        match r {
            Some(i) => next_user(users@, opt_text(*cursor), i as int),
            None => exhausted(users@, opt_text(*cursor)),
        },
{
    let mut best: Option<usize> = None;
    let mut i: usize = 0;
    while i < users.len()
        invariant
            i <= users@.len(),
            match best {
                Some(b) => {
                    &&& b < i
                    &&& after(opt_text(*cursor), users@[b as int].public_key@)
                    &&& forall|j: int|
                        0 <= j < i && after(opt_text(*cursor), (#[trigger] users@[j]).public_key@)
                            ==> !text_lt(users@[j].public_key@, users@[b as int].public_key@)
                },
                None => forall|j: int|
                    0 <= j < i ==> !after(
                        opt_text(*cursor),
                        (#[trigger] users@[j]).public_key@,
                    ),
            },
        decreases users@.len() - i,
    {
        let key = users[i].public_key.as_str();
        let later = match cursor {
            Some(c) => less(c.as_str(), key),
            None => true,
        };
        if later {
            match best {
                Some(b) => {
                    if less(key, users[b].public_key.as_str()) {
                        proof {
                            let ghost bk = users@[b as int].public_key@;
                            assert forall|j: int|
                                0 <= j < i && after(
                                    opt_text(*cursor),
                                    (#[trigger] users@[j]).public_key@,
                                ) implies !text_lt(users@[j].public_key@, key@) by {
                                if text_lt(users@[j].public_key@, key@) {
                                    lemma_text_lt_transitive(users@[j].public_key@, key@, bk);
                                }
                            }
                            lemma_text_lt_irreflexive(key@);
                        }
                        best = Some(i);
                    }
                },
                None => {
                    proof {
                        lemma_text_lt_irreflexive(key@);
                    }
                    best = Some(i);
                },
            }
        }
        i = i + 1;
    }
    best
}

/// The users of the farm, for the admin: a page of them in the order of their keys, after the
/// cursor where there is one.
pub fn list_users(
    caller: &Caller,
    row: &Option<FarmRow>,
    query: &ListUsersQuery,
    users: &Vec<FarmUserRow>,
    hubs: &Vec<HubRow>,
    sessions: &Vec<FarmSessionRow>,
    now: i64,
) -> (r: Result<ListUsersResponse, FarmError>)
    requires
        users@.len() <= i64::MAX,
        hubs@.len() <= i64::MAX,
        sessions@.len() <= i64::MAX,
    ensures
        match caller.admin_refusal(admin_of(*row)) {
            Some(d) => r matches Err(e) && e@ == d,
            None => r matches Ok(p) && {
                &&& p.total == users@.len()
                &&& is_page(
                    page_keys(p.users@),
                    users@,
                    opt_text(query.cursor),
                    page_size(query.limit),
                )
                &&& forall|m: int|
                    0 <= m < p.users@.len() ==> entry_shows(
                        #[trigger] p.users@[m],
                        users@,
                        hubs@,
                        sessions@,
                        now,
                    )
            },
        },
{
    let admin = admin_pubkey(row);
    match require_admin(caller, &admin) {
        Ok(_) => {},
        Err(e) => return Err(e),
    }
    let asked: i64 = match query.limit {
        Some(n) => n,
        None => 50,
    };
    let limit: usize = if asked > 200 {
        200
    } else if asked < 1 {
        1
    } else {
        asked as usize
    };
    let mut page: Vec<UserEntry> = Vec::new();
    let mut cursor: Option<String> = query.cursor.clone();
    let ghost start = opt_text(query.cursor);
    while page.len() < limit
        invariant_except_break
            opt_text(cursor) == cursor_at(page_keys(page@), start, page@.len() as int),
        invariant
            hubs@.len() <= i64::MAX,
            sessions@.len() <= i64::MAX,
            limit == page_size(query.limit),
            page@.len() <= limit,
            forall|m: int|
                0 <= m < page@.len() ==> follows(
                    users@,
                    cursor_at(page_keys(page@), start, m),
                    #[trigger] page_keys(page@)[m],
                ),
            forall|m: int|
                0 <= m < page@.len() ==> entry_shows(
                    #[trigger] page@[m],
                    users@,
                    hubs@,
                    sessions@,
                    now,
                ),
        ensures
            page@.len() < limit ==> exhausted(
                users@,
                cursor_at(page_keys(page@), start, page@.len() as int),
            ),
        decreases limit - page@.len(),
    {
        match find_next(users, &cursor) {
            Some(i) => {
                let key = users[i].public_key.clone();
                let entry = UserEntry {
                    public_key: key.clone(),
                    first_seen_at: users[i].first_seen_at,
                    last_seen_at: users[i].last_seen_at,
                    hubs_owned: count_owned(hubs, key.as_str()),
                    active_sessions: count_active(sessions, key.as_str(), now),
                };
                let ghost before = page@;
                page.push(entry);
                cursor = Some(key);
                proof {
                    reveal(follows);
                    let n = before.len() as int;
                    let keys = page_keys(page@);
                    assert(next_user(users@, cursor_at(page_keys(before), start, n), i as int));
                    assert forall|m: int| 0 <= m < page@.len() implies follows(
                        users@,
                        cursor_at(keys, start, m),
                        #[trigger] keys[m],
                    ) by {
                        if m < n {
                            assert(keys[m] == page_keys(before)[m]);
                            assert(cursor_at(keys, start, m) == cursor_at(
                                page_keys(before),
                                start,
                                m,
                            ));
                        } else {
                            assert(cursor_at(keys, start, n) == cursor_at(
                                page_keys(before),
                                start,
                                n,
                            ));
                        }
                    }
                    assert(users@[i as int].public_key@ == key@);
                }
            },
            None => {
                break;
            },
        }
    }
    Ok(ListUsersResponse { users: page, total: users.len() as i64 })
}

/// Reading page after page by the last key misses no one and repeats no one: a full page and
/// the one after its last key are the longer page that begins where the first one did.
pub proof fn pages_join(
    first: Seq<Seq<char>>,
    second: Seq<Seq<char>>,
    users: Seq<FarmUserRow>,
    cursor: Option<Seq<char>>,
    limit: int,
    more: int,
)
    requires
        1 <= limit,
        0 <= more,
        first.len() == limit,
        is_page(first, users, cursor, limit),
        is_page(second, users, Some(first.last()), more),
    ensures
        is_page(first + second, users, cursor, limit + more),
{
    let keys = first + second;
    assert forall|m: int| 0 <= m < keys.len() implies follows(
        users,
        cursor_at(keys, cursor, m),
        #[trigger] keys[m],
    ) by {
        if m < first.len() {
            assert(keys[m] == first[m]);
            assert(cursor_at(keys, cursor, m) == cursor_at(first, cursor, m));
        } else {
            let k = m - first.len();
            assert(keys[m] == second[k]);
            assert(cursor_at(keys, cursor, m) == cursor_at(second, Some(first.last()), k));
        }
    }
    assert(cursor_at(keys, cursor, keys.len() as int) == cursor_at(
        second,
        Some(first.last()),
        second.len() as int,
    ));
}

/// The next key after a cursor comes after it.
proof fn lemma_follows_after(users: Seq<FarmUserRow>, cursor: Option<Seq<char>>, key: Seq<char>)
    requires
        follows(users, cursor, key),
    ensures
        after(cursor, key),
{
    reveal(follows);
}

/// Every key on a page comes after the cursor and after the keys before it on the page.
pub proof fn page_increases(
    keys: Seq<Seq<char>>,
    users: Seq<FarmUserRow>,
    cursor: Option<Seq<char>>,
    limit: int,
    m: int,
)
    requires
        is_page(keys, users, cursor, limit),
        0 <= m < keys.len(),
    ensures
        after(cursor, keys[m]),
        forall|k: int| 0 <= k < m ==> text_lt(#[trigger] keys[k], keys[m]),
    decreases m,
{
    lemma_follows_after(users, cursor_at(keys, cursor, m), keys[m]);
    if m > 0 {
        page_increases(keys, users, cursor, limit, m - 1);
        assert(after(Some(keys[m - 1]), keys[m]));
        assert forall|k: int| 0 <= k < m implies text_lt(#[trigger] keys[k], keys[m]) by {
            if k < m - 1 {
                lemma_text_lt_transitive(keys[k], keys[m - 1], keys[m]);
            }
        }
        match cursor {
            Some(c) => {
                lemma_text_lt_transitive(c, keys[m - 1], keys[m]);
            },
            None => {},
        }
    }
}

/// Reading on until a page is not full visits everyone after the cursor, each once: such a page
/// has the key of every user who comes after its cursor, no key twice, and no other key.
pub proof fn last_page_is_complete(
    keys: Seq<Seq<char>>,
    users: Seq<FarmUserRow>,
    cursor: Option<Seq<char>>,
    limit: int,
    key: Seq<char>,
)
    requires
        is_page(keys, users, cursor, limit),
        keys.len() < limit,
    ensures
        keys.no_duplicates(),
        keys.contains(key) <==> user_exists(users, key) && after(cursor, key),
{
    assert forall|i: int, j: int| 0 <= i < j < keys.len() implies keys[i] != keys[j] by {
        page_increases(keys, users, cursor, limit, j);
        lemma_text_lt_irreflexive(keys[j]);
    }
    if keys.contains(key) {
        let m = choose|m: int| 0 <= m < keys.len() && keys[m] == key;
        page_increases(keys, users, cursor, limit, m);
        reveal(follows);
        assert(follows(users, cursor_at(keys, cursor, m), keys[m]));
        let i = choose|i: int|
            #[trigger] next_user(users, cursor_at(keys, cursor, m), i) && users[i].public_key@
                == key;
        assert(users[i].public_key@ == key);
    }
    if user_exists(users, key) && after(cursor, key) {
        let j = choose|j: int| 0 <= j < users.len() && (#[trigger] users[j]).public_key@ == key;
        lemma_found_on_page(keys, users, cursor, limit, j, keys.len() as int);
    }
}

/// A user after the cursor who does not come after a place of the page stands before it.
proof fn lemma_found_on_page(
    keys: Seq<Seq<char>>,
    users: Seq<FarmUserRow>,
    cursor: Option<Seq<char>>,
    limit: int,
    j: int,
    m: int,
)
    requires
        is_page(keys, users, cursor, limit),
        0 <= j < users.len(),
        after(cursor, users[j].public_key@),
        0 <= m <= keys.len(),
        !after(cursor_at(keys, cursor, m), users[j].public_key@),
    ensures
        keys.contains(users[j].public_key@),
    decreases m,
{
    let key = users[j].public_key@;
    if m > 0 {
        if after(cursor_at(keys, cursor, m - 1), key) {
            reveal(follows);
            assert(follows(users, cursor_at(keys, cursor, m - 1), keys[m - 1]));
            lemma_text_lt_total(keys[m - 1], key);
            assert(keys[m - 1] == key);
        } else {
            lemma_found_on_page(keys, users, cursor, limit, j, m - 1);
        }
    }
}

/// Whether there is a user with the key.
pub open spec fn user_exists(users: Seq<FarmUserRow>, key: Seq<char>) -> bool {
    exists|i: int| 0 <= i < users.len() && (#[trigger] users[i]).public_key@ == key
}

/// Why the sessions may not be revoked, where they may not.
pub open spec fn revocation_refusal(
    caller: Caller,
    row: Option<FarmRow>,
    users: Seq<FarmUserRow>,
    key: Seq<char>,
) -> Option<FarmRefusal> {
    if caller.admin_refusal(admin_of(row)) is Some {
        caller.admin_refusal(admin_of(row))
    } else if !user_exists(users, key) {
        Some(refusal(404, "user_not_found"@))
    } else {
        None
    }
}

/// The session after the revocation: revoked by hand if it was active, as it was if not.
pub open spec fn revoked(s: FarmSessionRow, key: Seq<char>, now: i64) -> FarmSessionRow {
    if s.public_key@ == key && active(s, now) {
        FarmSessionRow { revoked_at: Some(now), revoked_manually: true, ..s }
    } else {
        s
    }
}

/// The sessions after the revocation.
pub open spec fn after_revocation(sessions: Seq<FarmSessionRow>, key: Seq<char>, now: i64) -> Seq<
    FarmSessionRow,
> {
    sessions.map_values(|s: FarmSessionRow| revoked(s, key, now))
}

/// Revokes every active session of the user and counts them.
pub fn revoke_user_sessions(
    caller: &Caller,
    row: &Option<FarmRow>,
    users: &Vec<FarmUserRow>,
    sessions: &mut Vec<FarmSessionRow>,
    pubkey: &str,
    now: i64,
) -> (r: Result<RevokeSessionsResponse, FarmError>)
    requires
        old(sessions)@.len() <= u64::MAX,
    ensures
        match revocation_refusal(*caller, *row, users@, pubkey@) {
            Some(d) => (r matches Err(e) && e@ == d) && final(sessions)@ == old(sessions)@,
            None => {
                &&& r matches Ok(x) && x.revoked == active_count(old(sessions)@, pubkey@, now)
                &&& final(sessions)@ == after_revocation(old(sessions)@, pubkey@, now)
            },
        },
{
    let admin = admin_pubkey(row);
    match require_admin(caller, &admin) {
        Ok(_) => {},
        Err(e) => return Err(e),
    }
    let mut found = false;
    let mut i: usize = 0;
    while i < users.len() && !found
        invariant
            i <= users@.len(),
            found ==> user_exists(users@, pubkey@),
            !found ==> forall|k: int| 0 <= k < i ==> (#[trigger] users@[k]).public_key@ != pubkey@,
        decreases users@.len() - i,
    {
        if same(users[i].public_key.as_str(), pubkey) {
            found = true;
        }
        i = i + 1;
    }
    if !found {
        return Err(refuse(404, "user_not_found"));
    }
    let ghost before = sessions@;
    let ghost p = active_of(pubkey@, now);
    let mut n: u64 = 0;
    let mut j: usize = 0;
    assert(before.take(0) =~= Seq::<FarmSessionRow>::empty());
    reveal(Seq::filter);
    while j < sessions.len()
        invariant
            before.len() <= u64::MAX,
            sessions@.len() == before.len(),
            j <= before.len(),
            p == active_of(pubkey@, now),
            n == before.take(j as int).filter(p).len(),
            n <= j,
            forall|k: int| 0 <= k < j ==> sessions@[k] == revoked(before[k], pubkey@, now),
            forall|k: int| j <= k < before.len() ==> sessions@[k] == before[k],
        decreases before.len() - j,
    {
        proof {
            lemma_filter_step(before, p, j as int);
        }
        if sessions[j].revoked_at.is_none() && sessions[j].expires_at > now && same(
            sessions[j].public_key.as_str(),
            pubkey,
        ) {
            sessions[j].revoked_at = Some(now);
            sessions[j].revoked_manually = true;
            n = n + 1;
        }
        j = j + 1;
    }
    assert(before.take(before.len() as int) =~= before);
    assert(sessions@ =~= after_revocation(before, pubkey@, now));
    Ok(RevokeSessionsResponse { revoked: n })
}

/// After a revocation the user has no active session left.
pub proof fn revocation_is_complete(sessions: Seq<FarmSessionRow>, key: Seq<char>, now: i64)
    ensures
        active_count(after_revocation(sessions, key, now), key, now) == 0,
{
    let after = after_revocation(sessions, key, now);
    let p = active_of(key, now);
    let left = after.filter(p);
    if left.len() > 0 {
        after.lemma_filter_pred(p, 0);
        after.lemma_filter_contains_rev(p, left[0]);
        let k = choose|k: int| 0 <= k < after.len() && after[k] == left[0];
        assert(after[k] == revoked(sessions[k], key, now));
    }
}

/// Whether the answer shows the row to the public. The admin's key is no part of it.
pub open spec fn public_shows(p: PublicInfoResponse, row: FarmRow, hub_count: i64) -> bool {
    &&& p.kind@ == "voxply-farm-public"@
    &&& p.name@ == row.name@
    &&& opt_text(p.description) == opt_text(row.description)
    &&& p.creation_policy@ == row.creation_policy@
    &&& p.hub_count == hub_count
    &&& p.max_hubs_total == row.max_hubs_total
    &&& p.allow_discovery_listing == (row.allow_discovery_listing != 0)
    &&& opt_text(p.country) == opt_text(row.country)
    &&& opt_text(p.region) == opt_text(row.region)
    &&& p.languages@ == json_or(row.languages@, "[\"en\"]"@)
    &&& p.tags@ == json_or(row.tags@, "[]"@)
}

/// What anyone may learn of the farm, where it lets itself be discovered. Where the hubs
/// could not be counted they count as none.
pub fn public_info(row: &Option<FarmRow>, hub_count: Option<i64>) -> (r: Result<
    PublicInfoResponse,
    FarmError,
>)
    ensures
        match row {
            None => r matches Err(e) && e@ == refusal(500, "farm_row_missing"@),
            Some(f) => if f.allow_discovery_listing == 0 {
                r matches Err(e) && e@ == refusal(404, "discovery_disabled"@)
            } else {
                r matches Ok(p) && public_shows(
                    p,
                    *f,
                    match hub_count {
                        Some(n) => n,
                        None => 0,
                    },
                )
            },
        },
{
    match row {
        None => Err(refuse(500, "farm_row_missing")),
        Some(f) => {
            if f.allow_discovery_listing == 0 {
                return Err(refuse(404, "discovery_disabled"));
            }
            Ok(
                PublicInfoResponse {
                    kind: "voxply-farm-public".to_owned(),
                    name: f.name.clone(),
                    description: f.description.clone(),
                    creation_policy: f.creation_policy.clone(),
                    hub_count: match hub_count {
                        Some(n) => n,
                        None => 0,
                    },
                    max_hubs_total: f.max_hubs_total,
                    allow_discovery_listing: f.allow_discovery_listing != 0,
                    country: f.country.clone(),
                    region: f.region.clone(),
                    languages: json_or_text(f.languages.as_str(), "[\"en\"]"),
                    tags: json_or_text(f.tags.as_str(), "[]"),
                },
            )
        },
    }
}

/// Two farms that differ only in their admin look the same to the public.
pub proof fn public_info_hides_the_admin(
    p: PublicInfoResponse,
    a: FarmRow,
    b: FarmRow,
    hub_count: i64,
)
    requires
        a == (FarmRow { admin_pubkey: a.admin_pubkey, ..b }),
    ensures
        public_shows(p, a, hub_count) == public_shows(p, b, hub_count),
{
}

/// Whether the caller is known, and the farm has them as its admin.
pub open spec fn asks_as_admin(caller: Caller, row: Option<FarmRow>) -> bool {
    &&& caller.header is Some && "Bearer "@.is_prefix_of(caller.header->0@)
    &&& caller.payload is Some
    &&& row is Some && row->0.admin_pubkey is Some
    &&& row->0.admin_pubkey->0@ == caller.payload->0.sub@
}

/// The settings are shown to the admin alone, as the farm has them.
pub proof fn the_admin_sees_the_settings(
    caller: &Caller,
    row: &Option<FarmRow>,
    r: Result<FarmSettingsResponse, FarmError>,
)
    requires
        call_ensures(get_settings, (caller, row), r),
    ensures
        r is Ok <==> asks_as_admin(*caller, *row),
        r matches Err(e) ==> e.status == 401 || e.status == 403,
        r matches Ok(s) ==> ({
            let f = row->0;
            &&& s.name@ == f.name@
            &&& opt_text(s.description) == opt_text(f.description)
            &&& s.directory_public <==> f.directory_public != 0
            &&& s.creation_policy@ == f.creation_policy@
            &&& s.max_hubs_per_user == f.max_hubs_per_user
            &&& s.max_hubs_total == f.max_hubs_total
            &&& s.allow_discovery_listing <==> f.allow_discovery_listing != 0
            &&& opt_text(s.country) == opt_text(f.country)
            &&& opt_text(s.region) == opt_text(f.region)
            &&& opt_text(s.admin_pubkey) == opt_text(f.admin_pubkey)
            &&& is_json(f.languages@) ==> s.languages@ == f.languages@
            &&& is_json(f.tags@) ==> s.tags@ == f.tags@
        }),
{
}

/// A change is made by the admin alone: what the request gives is what the settings then show,
/// and what it does not give stays. The admin is not changed by it.
pub proof fn a_change_changes_what_it_gives(
    caller: &Caller,
    row: &Option<FarmRow>,
    req: &PatchSettingsRequest,
    r: Result<(FarmRow, FarmSettingsResponse), FarmError>,
)
    requires
        call_ensures(patch_settings, (caller, row, req), r),
    ensures
        r is Ok ==> asks_as_admin(*caller, *row),
        !asks_as_admin(*caller, *row) ==> r is Err && (r->Err_0.status == 401 || r->Err_0.status
            == 403),
        r matches Ok(x) ==> ({
            let f = row->0;
            let n = x.0;
            let s = x.1;
            &&& n.name@ == if req.name is Some {
                req.name->0@
            } else {
                f.name@
            }
            &&& req.description is Some ==> opt_text(n.description) == opt_text(req.description)
            &&& req.description is None ==> opt_text(n.description) == opt_text(f.description)
            &&& req.directory_public matches Some(b) ==> s.directory_public == b
            &&& req.directory_public is None ==> n.directory_public == f.directory_public
            &&& req.creation_policy matches Some(p) ==> n.creation_policy@ == p@
            &&& req.creation_policy is None ==> n.creation_policy@ == f.creation_policy@
            &&& req.max_hubs_per_user matches Some(k) ==> n.max_hubs_per_user == k
            &&& req.max_hubs_per_user is None ==> n.max_hubs_per_user == f.max_hubs_per_user
            &&& req.max_hubs_total matches Some(k) ==> n.max_hubs_total == k
            &&& req.max_hubs_total is None ==> n.max_hubs_total == f.max_hubs_total
            &&& req.allow_discovery_listing matches Some(b) ==> s.allow_discovery_listing == b
            &&& req.allow_discovery_listing is None ==> n.allow_discovery_listing
                == f.allow_discovery_listing
            &&& req.languages matches Some(v) ==> strings_of_json(s.languages@) == Some(texts(v@))
            &&& req.languages is None ==> n.languages@ == f.languages@
            &&& req.tags matches Some(v) ==> strings_of_json(s.tags@) == Some(texts(v@))
            &&& req.tags is None ==> n.tags@ == f.tags@
            &&& req.country is Some ==> opt_text(n.country) == opt_text(req.country)
            &&& req.country is None ==> opt_text(n.country) == opt_text(f.country)
            &&& req.region is Some ==> opt_text(n.region) == opt_text(req.region)
            &&& req.region is None ==> opt_text(n.region) == opt_text(f.region)
            &&& opt_text(n.admin_pubkey) == opt_text(f.admin_pubkey)
            &&& s.name@ == n.name@ && s.creation_policy@ == n.creation_policy@
            &&& s.max_hubs_per_user == n.max_hubs_per_user && s.max_hubs_total == n.max_hubs_total
            &&& s.directory_public <==> n.directory_public != 0
        }),
{
}

/// Where each text passes, none fails.
proof fn lemma_none_fails(v: Seq<Seq<char>>, holds: spec_fn(Seq<char>) -> bool)
    requires
        forall|i: int| 0 <= i < v.len() ==> holds(#[trigger] v[i]),
    ensures
        first_failing(v, holds) is None,
    decreases v.len(),
{
    if v.len() > 0 {
        assert forall|i: int| 0 <= i < v.skip(1).len() implies holds(#[trigger] v.skip(1)[i]) by {
            assert(v.skip(1)[i] == v[i + 1]);
        }
        lemma_none_fails(v.skip(1), holds);
    }
}

/// Where none fails, each text passes.
proof fn lemma_each_passes(v: Seq<Seq<char>>, holds: spec_fn(Seq<char>) -> bool, i: int)
    requires
        first_failing(v, holds) is None,
        0 <= i < v.len(),
    ensures
        holds(v[i]),
    decreases v.len(),
{
    if i > 0 {
        lemma_each_passes(v.skip(1), holds, i - 1);
        assert(v.skip(1)[i - 1] == v[i]);
    }
}

/// A farm carries at most three tags, each of the six that there are.
pub proof fn tags_are_few_and_known(tags: &Vec<String>, r: Result<(), FarmError>, i: int)
    requires
        call_ensures(validate_tags, (tags,), r),
    ensures
        r is Ok && 0 <= i < tags@.len() ==> tags@.len() <= 3 && (tags@[i]@ == "gaming"@ || tags@[i]@
            == "professional"@ || tags@[i]@ == "creative"@ || tags@[i]@ == "education"@
            || tags@[i]@ == "community"@ || tags@[i]@ == "18plus"@),
        tags@.len() <= 3 && (forall|j: int|
            0 <= j < tags@.len() ==> (#[trigger] tags@[j])@ == "gaming"@ || tags@[j]@
                == "professional"@ || tags@[j]@ == "creative"@ || tags@[j]@ == "education"@
                || tags@[j]@ == "community"@ || tags@[j]@ == "18plus"@) ==> r is Ok,
        tags@.len() > 3 ==> r is Err,
        r matches Err(e) ==> e.status == 400 && e.error@ == "invalid_tag"@,
{
    let holds = |t: Seq<char>| valid_tag(t);
    if r is Ok && 0 <= i < tags@.len() {
        lemma_each_passes(texts(tags@), holds, i);
        assert(texts(tags@)[i] == tags@[i]@);
        assert(holds(tags@[i]@));
    }
    if forall|j: int| 0 <= j < texts(tags@).len() ==> holds(#[trigger] texts(tags@)[j]) {
        lemma_none_fails(texts(tags@), holds);
    } else {
        let j: int = choose|j: int|
            0 <= j < texts(tags@).len() && !holds(#[trigger] texts(tags@)[j]);
        assert(texts(tags@)[j] == tags@[j]@);
    }
}

/// A farm has one to five languages, each a code of two small letters.
pub proof fn languages_are_codes(langs: &Vec<String>, r: Result<(), FarmError>, i: int)
    requires
        call_ensures(validate_languages, (langs,), r),
    ensures
        r is Ok ==> 1 <= langs@.len() <= 5,
        r is Ok && 0 <= i < langs@.len() ==> langs@[i]@.len() == 2 && 'a' <= langs@[i]@[0]
            && langs@[i]@[0] <= 'z' && 'a' <= langs@[i]@[1] && langs@[i]@[1] <= 'z',
        1 <= langs@.len() <= 5 && (forall|j: int|
            0 <= j < langs@.len() ==> (#[trigger] langs@[j])@.len() == 2 && 'a' <= langs@[j]@[0]
                && langs@[j]@[0] <= 'z' && 'a' <= langs@[j]@[1] && langs@[j]@[1] <= 'z') ==> r is Ok,
        r matches Err(e) ==> e.status == 400 && e.error@ == "invalid_value"@,
{
    let holds = |t: Seq<char>| valid_language(t);
    if r is Ok && 0 <= i < langs@.len() {
        lemma_each_passes(texts(langs@), holds, i);
        assert(texts(langs@)[i] == langs@[i]@);
        assert(holds(langs@[i]@));
        assert('a' <= langs@[i]@[0] && 'a' <= langs@[i]@[1]);
    }
    if forall|j: int| 0 <= j < texts(langs@).len() ==> holds(#[trigger] texts(langs@)[j]) {
        lemma_none_fails(texts(langs@), holds);
    } else {
        let j: int = choose|j: int|
            0 <= j < texts(langs@).len() && !holds(#[trigger] texts(langs@)[j]);
        assert(texts(langs@)[j] == langs@[j]@);
    }
}

/// There are three policies, and a change to any other is refused, as is one with tags or
/// languages that may not stand. Any other change of the admin's is made.
pub proof fn a_change_must_be_valid(
    caller: &Caller,
    row: &Option<FarmRow>,
    req: &PatchSettingsRequest,
    r: Result<(FarmRow, FarmSettingsResponse), FarmError>,
    tags: Result<(), FarmError>,
    langs: Result<(), FarmError>,
    policy: &str,
    known: bool,
)
    requires
        call_ensures(patch_settings, (caller, row, req), r),
        asks_as_admin(*caller, *row),
        call_ensures(validate_tags, (&req.tags->0,), tags),
        call_ensures(validate_languages, (&req.languages->0,), langs),
        call_ensures(validate_creation_policy, (policy,), known),
    ensures
        known <==> policy@ == "open"@ || policy@ == "admin_only"@ || policy@ == "disabled"@,
        r is Ok <==> (req.creation_policy matches Some(p) ==> p@ == "open"@ || p@ == "admin_only"@
            || p@ == "disabled"@) && (req.tags is Some ==> tags is Ok) && (req.languages is Some
            ==> langs is Ok),
        r matches Err(e) ==> e.status == 400,
{
}

/// What someone is told of their quota is what they own and what is left of the limits: never
/// less than nothing, and nothing is said where there is no limit.
pub proof fn the_quota_is_what_is_left(
    caller: &Caller,
    row: &Option<FarmRow>,
    hubs: &Vec<HubRow>,
    r: Result<HubQuotaResponse, FarmError>,
    sub: &str,
    owned: i64,
    live: i64,
)
    requires
        call_ensures(me_hub_quota, (caller, row, hubs), r),
        hubs@.len() <= i64::MAX,
        caller.header is Some && "Bearer "@.is_prefix_of(caller.header->0@),
        caller.payload is Some && caller.payload->0.sub@ == sub@,
        call_ensures(count_owned, (hubs, sub), owned),
        call_ensures(count_live, (hubs,), live),
    ensures
        r is Ok <==> row is Some,
        r matches Err(e) ==> e.status == 500,
        r matches Ok(q) ==> ({
            let f = row->0;
            &&& q.hubs_owned == owned
            &&& q.farm_hubs_total == live
            &&& q.creation_policy@ == f.creation_policy@
            &&& q.max_hubs_per_user == f.max_hubs_per_user
            &&& q.max_hubs_total == f.max_hubs_total
            &&& q.quota_remaining is None <==> f.max_hubs_per_user == 0
            &&& f.max_hubs_per_user > owned ==> q.quota_remaining is Some && q.quota_remaining->0
                + owned == f.max_hubs_per_user
            &&& f.max_hubs_per_user != 0 && f.max_hubs_per_user <= owned ==> q.quota_remaining
                == Some(0i64)
            &&& q.farm_quota_remaining is None <==> f.max_hubs_total == 0
            &&& f.max_hubs_total > live ==> q.farm_quota_remaining is Some
                && q.farm_quota_remaining->0 + live == f.max_hubs_total
            &&& f.max_hubs_total != 0 && f.max_hubs_total <= live ==> q.farm_quota_remaining
                == Some(0i64)
        }),
{
}

/// The users are listed to the admin alone: at most as many as asked for, which is 50 where
/// nothing is asked, never more than 200 and always at least one; in the order of their keys,
/// after the cursor. All of them are counted.
pub proof fn the_admin_lists_the_users(
    caller: &Caller,
    row: &Option<FarmRow>,
    query: &ListUsersQuery,
    users: &Vec<FarmUserRow>,
    hubs: &Vec<HubRow>,
    sessions: &Vec<FarmSessionRow>,
    now: i64,
    r: Result<ListUsersResponse, FarmError>,
    m: int,
    j: int,
)
    requires
        call_ensures(list_users, (caller, row, query, users, hubs, sessions, now), r),
        users@.len() <= i64::MAX,
        hubs@.len() <= i64::MAX,
        sessions@.len() <= i64::MAX,
    ensures
        r is Ok <==> asks_as_admin(*caller, *row),
        r matches Ok(p) ==> p.total == users@.len() && p.users@.len() <= 200,
        r is Ok && query.limit is None ==> r->Ok_0.users@.len() <= 50,
        r is Ok && query.limit is Some && 1 <= query.limit->0 ==> r->Ok_0.users@.len()
            <= query.limit->0,
        r is Ok && query.limit is Some && query.limit->0 < 1 ==> r->Ok_0.users@.len() <= 1,
        r is Ok && query.cursor is None && users@.len() > 0 ==> r->Ok_0.users@.len() > 0,
        r is Ok && 0 <= j < users@.len() && query.cursor is None && (query.limit is None
            && r->Ok_0.users@.len() < 50) ==> page_keys(r->Ok_0.users@).contains(
            users@[j].public_key@,
        ),
        r is Ok && 0 <= m < r->Ok_0.users@.len() ==> ({
            let e = r->Ok_0.users@[m];
            &&& exists|i: int|
                0 <= i < users@.len() && (#[trigger] users@[i]).public_key@ == e.public_key@
                    && users@[i].first_seen_at == e.first_seen_at && users@[i].last_seen_at
                    == e.last_seen_at
            &&& query.cursor matches Some(c) ==> text_lt(c@, e.public_key@)
            &&& forall|k: int|
                0 <= k < m ==> text_lt(
                    (#[trigger] r->Ok_0.users@[k]).public_key@,
                    e.public_key@,
                )
            &&& e.hubs_owned == owned_count(hubs@, e.public_key@)
            &&& e.active_sessions == active_count(sessions@, e.public_key@, now)
        }),
{
    if r is Ok {
        let p = r->Ok_0.users@;
        let keys = page_keys(p);
        let limit = page_size(query.limit);
        if 0 <= m < p.len() {
            assert(entry_shows(p[m], users@, hubs@, sessions@, now));
            page_increases(keys, users@, opt_text(query.cursor), limit, m);
            assert(keys[m] == p[m].public_key@);
            assert forall|k: int| 0 <= k < m implies text_lt(
                (#[trigger] p[k]).public_key@,
                p[m].public_key@,
            ) by {
                assert(keys[k] == p[k].public_key@);
            }
        }
        if query.cursor is None && users@.len() > 0 && p.len() == 0 {
            assert(exhausted(users@, cursor_at(keys, None, 0)));
            assert(!after(None, users@[0].public_key@));
        }
        if 0 <= j < users@.len() && query.cursor is None && query.limit is None && p.len() < 50 {
            last_page_is_complete(keys, users@, None, limit, users@[j].public_key@);
            assert(user_exists(users@, users@[j].public_key@));
        }
    }
}

/// The sessions of a user are revoked by the admin alone, for a user who is there: each that was
/// neither revoked nor over is revoked by hand as of now; no other session changes.
pub proof fn the_admin_ends_the_sessions(
    caller: &Caller,
    row: &Option<FarmRow>,
    users: &Vec<FarmUserRow>,
    sessions: &mut Vec<FarmSessionRow>,
    key: &str,
    now: i64,
    r: Result<RevokeSessionsResponse, FarmError>,
    i: int,
)
    requires
        call_ensures(revoke_user_sessions, (caller, row, users, sessions, key, now), r),
        0 <= i < old(sessions)@.len(),
    ensures
        r is Ok <==> asks_as_admin(*caller, *row) && exists|j: int|
            0 <= j < users@.len() && (#[trigger] users@[j]).public_key@ == key@,
        asks_as_admin(*caller, *row) && r is Err ==> r->Err_0.status == 404,
        r is Err ==> final(sessions)@ == old(sessions)@,
        final(sessions)@.len() == old(sessions)@.len(),
        r is Ok && old(sessions)@[i].public_key@ == key@ && old(sessions)@[i].revoked_at is None
            && old(sessions)@[i].expires_at > now ==> final(sessions)@[i].revoked_at == Some(now)
            && final(sessions)@[i].revoked_manually,
        old(sessions)@[i].public_key@ != key@ || old(sessions)@[i].revoked_at is Some
            || old(sessions)@[i].expires_at <= now ==> final(sessions)@[i] == old(sessions)@[i],
        final(sessions)@[i].jti == old(sessions)@[i].jti,
        final(sessions)@[i].public_key == old(sessions)@[i].public_key,
        r is Ok && old(sessions)@[i].public_key@ == key@ && old(sessions)@[i].revoked_at is None
            && old(sessions)@[i].expires_at > now ==> r->Ok_0.revoked > 0,
        r is Ok && (forall|j: int|
            0 <= j < old(sessions)@.len() ==> (#[trigger] old(sessions)@[j]).public_key@ != key@)
            ==> r->Ok_0.revoked == 0,
{
    let p = active_of(key@, now);
    let s = old(sessions)@;
    lemma_kept(s, p, s[i]);
    if s.filter(p).len() > 0 {
        assert(s.filter(p).contains(s.filter(p)[0]));
        lemma_kept(s, p, s.filter(p)[0]);
    }
}

/// A farm that lets itself be discovered tells anyone what it is, with the hubs that were
/// counted; one that does not tells nothing.
pub proof fn a_discoverable_farm_tells_of_itself(
    row: &Option<FarmRow>,
    hub_count: Option<i64>,
    r: Result<PublicInfoResponse, FarmError>,
)
    requires
        call_ensures(public_info, (row, hub_count), r),
    ensures
        r is Ok <==> row is Some && row->0.allow_discovery_listing != 0,
        row is None ==> r->Err_0.status == 500,
        row is Some && r is Err ==> r->Err_0.status == 404 && r->Err_0.error@
            == "discovery_disabled"@,
        r matches Ok(p) ==> ({
            let f = row->0;
            &&& p.kind@ == "voxply-farm-public"@
            &&& p.name@ == f.name@
            &&& opt_text(p.description) == opt_text(f.description)
            &&& p.creation_policy@ == f.creation_policy@
            &&& p.max_hubs_total == f.max_hubs_total
            &&& p.allow_discovery_listing
            &&& opt_text(p.country) == opt_text(f.country)
            &&& opt_text(p.region) == opt_text(f.region)
            &&& hub_count matches Some(n) ==> p.hub_count == n
            &&& hub_count is None ==> p.hub_count == 0
            &&& is_json(f.languages@) ==> p.languages@ == f.languages@
            &&& is_json(f.tags@) ==> p.tags@ == f.tags@
        }),
{
}

/// A language is two small letters, and nothing else is one.
pub proof fn a_language_is_two_small_letters(code: &str, r: bool)
    requires
        call_ensures(validate_language, (code,), r),
    ensures
        r <==> code@.len() == 2 && 'a' <= code@[0] && code@[0] <= 'z' && 'a' <= code@[1] && code@[1]
            <= 'z',
{
}

/// Sessions are counted one by one: one of the user that is neither revoked nor over counts, and
/// no other does.
pub proof fn open_sessions_count_one_by_one(
    sessions: Seq<FarmSessionRow>,
    s: FarmSessionRow,
    key: Seq<char>,
    now: i64,
)
    ensures
        active_count(Seq::empty(), key, now) == 0,
        active_count(sessions.push(s), key, now) == active_count(sessions, key, now) + if s.public_key@
            == key && s.revoked_at is None && s.expires_at > now {
            1int
        } else {
            0
        },
{
    reveal(Seq::filter);
    assert(sessions.push(s).drop_last() =~= sessions);
}

} // verus!
