//! The daily round that issues certifications to those who earned one.
use vstd::prelude::*;
use crate::hub::certs::{setting_i64, setting_or, IssuanceDbRow};
use crate::hub::moderation::{banned, is_banned, BanResponse};
use crate::number::signed_value;
use crate::rows::{lemma_filter_step, lemma_kept};
use crate::text::{opt_text, same, texts};

verus! {

/// A member as the round sees them.
pub struct WorkerUser {
    pub public_key: String,
    pub approval_status: String,
    pub is_bot: Option<i64>,
    pub first_seen_at: i64,
}

/// The settings of the round.
pub struct WorkerSettings {
    pub auto_issue: Option<String>,
    pub standing_days: Option<String>,
}

/// Whether rounds are made at all: they are, unless the setting says something else than true.
pub open spec fn enabled(s: WorkerSettings) -> bool {
    s.auto_issue is None || s.auto_issue->0@ == "true"@
}

/// Whether the row is a good certification of the user that still stands.
pub open spec fn standing_cert(r: IssuanceDbRow, user: Seq<char>) -> bool {
    r.subject_pubkey@ == user && r.standing@ == "good"@ && r.revoked_at is None
}

/// Whether every certification of the user that still stands has run out.
pub open spec fn all_expired(ledger: Seq<IssuanceDbRow>, user: Seq<char>, now: i64) -> bool {
    forall|i: int|
        0 <= i < ledger.len() && standing_cert(#[trigger] ledger[i], user) ==> ledger[i].expires_at
            < now
}

/// Whether the user is due: approved, no bot, a member for long enough, and without a
/// certification that is neither revoked nor expired.
pub open spec fn due(
    u: WorkerUser,
    ledger: Seq<IssuanceDbRow>,
    s: WorkerSettings,
    now: i64,
) -> bool {
    &&& u.approval_status@ == "approved"@
    &&& u.is_bot is None || u.is_bot->0 == 0
    &&& u.first_seen_at <= now - setting_or(opt_text(s.standing_days), 30) * 86400
    &&& all_expired(ledger, u.public_key@, now)
}

/// Those who are due and not banned, as a condition on members.
pub open spec fn is_eligible(
    ledger: Seq<IssuanceDbRow>,
    bans: Seq<BanResponse>,
    s: WorkerSettings,
    now: i64,
) -> spec_fn(WorkerUser) -> bool {
    |u: WorkerUser| due(u, ledger, s, now) && !banned(bans, u.public_key@)
}

/// The keys of the members.
pub open spec fn keys_of(u: Seq<WorkerUser>) -> Seq<Seq<char>> {
    u.map_values(|x: WorkerUser| x.public_key@)
}

/// Those who get a certification in a round: everyone who is eligible.
pub open spec fn chosen(
    users: Seq<WorkerUser>,
    ledger: Seq<IssuanceDbRow>,
    bans: Seq<BanResponse>,
    s: WorkerSettings,
    now: i64,
) -> Seq<WorkerUser> {
    users.filter(is_eligible(ledger, bans, s, now))
}

fn none_fresh(ledger: &Vec<IssuanceDbRow>, user: &str, now: i64) -> (r: bool)
    ensures
        r == all_expired(ledger@, user@, now),
{
    let mut i: usize = 0;
    while i < ledger.len()
        invariant
            i <= ledger@.len(),
            forall|k: int|
                0 <= k < i && standing_cert(#[trigger] ledger@[k], user@) ==> ledger@[k].expires_at
                    < now,
        decreases ledger@.len() - i,
    {
        let row = &ledger[i];
        if row.revoked_at.is_none() && row.expires_at >= now && same(
            row.standing.as_str(),
            "good",
        ) && same(row.subject_pubkey.as_str(), user) {
            assert(standing_cert(ledger@[i as int], user@));
            return false;
        }
        i = i + 1;
    }
    true
}

/// One round: the keys of those who get a certification.
pub fn tick(
    users: &Vec<WorkerUser>,
    ledger: &Vec<IssuanceDbRow>,
    bans: &Vec<BanResponse>,
    settings: &WorkerSettings,
    now: i64,
) -> (r: Vec<String>)
    ensures
        texts(r@) == if enabled(*settings) {
            keys_of(chosen(users@, ledger@, bans@, *settings, now))
        } else {
            Seq::<Seq<char>>::empty()
        },
{
    let mut out: Vec<String> = Vec::new();
    assert(texts(out@) =~= Seq::<Seq<char>>::empty());
    let on = match &settings.auto_issue {
        Some(v) => same(v.as_str(), "true"),
        None => true,
    };
    if !on {
        return out;
    }
    let standing: i64 = setting_i64(&settings.standing_days, 30);
    let threshold: i128 = now as i128 - standing as i128 * 86400;
    let ghost p = is_eligible(ledger@, bans@, *settings, now);
    let mut i: usize = 0;
    assert(users@.take(0) =~= Seq::<WorkerUser>::empty());
    reveal(Seq::filter);
    assert(keys_of(Seq::<WorkerUser>::empty()) =~= Seq::<Seq<char>>::empty());
    while i < users.len()
        invariant
            i <= users@.len(),
            threshold == now - setting_or(opt_text(settings.standing_days), 30) * 86400,
            p == is_eligible(ledger@, bans@, *settings, now),
            texts(out@) == keys_of(users@.take(i as int).filter(p)),
        decreases users@.len() - i,
    {
        let u = &users[i];
        let ghost found = users@.take(i as int).filter(p);
        proof {
            lemma_filter_step(users@, p, i as int);
        }
        let bot = match u.is_bot {
            Some(n) => n != 0,
            None => false,
        };
        if same(u.approval_status.as_str(), "approved") && !bot && u.first_seen_at as i128
            <= threshold && none_fresh(ledger, u.public_key.as_str(), now) && !is_banned(
            bans,
            u.public_key.as_str(),
        ) {
            let ghost before = texts(out@);
            out.push(u.public_key.clone());
            proof {
                assert(texts(out@) =~= before.push(u.public_key@));
                assert(keys_of(found.push(*u)) =~= keys_of(found).push(u.public_key@));
            }
        }
        i = i + 1;
    }
    assert(users@.take(users@.len() as int) =~= users@);
    out
}

/// A round sweeps everyone: a member gets a certification exactly where they are due and not
/// banned.
pub proof fn everyone_eligible_is_chosen(
    users: Seq<WorkerUser>,
    ledger: Seq<IssuanceDbRow>,
    bans: Seq<BanResponse>,
    s: WorkerSettings,
    now: i64,
    u: WorkerUser,
)
    ensures
        chosen(users, ledger, bans, s, now).contains(u) <==> users.contains(u) && due(
            u,
            ledger,
            s,
            now,
        ) && !banned(bans, u.public_key@),
{
    let p = is_eligible(ledger, bans, s, now);
    let c = users.filter(p);
    if c.contains(u) {
        let k = choose|k: int| 0 <= k < c.len() && c[k] == u;
        users.lemma_filter_pred(p, k);
        users.lemma_filter_contains_rev(p, u);
    }
    if users.contains(u) && p(u) {
        let k = choose|k: int| 0 <= k < users.len() && users[k] == u;
        users.lemma_filter_contains(p, k);
    }
}

/// No one who is banned gets a certification in a round.
pub proof fn no_cert_for_the_banned(
    users: Seq<WorkerUser>,
    ledger: Seq<IssuanceDbRow>,
    bans: Seq<BanResponse>,
    s: WorkerSettings,
    now: i64,
    u: WorkerUser,
)
    requires
        chosen(users, ledger, bans, s, now).contains(u),
    ensures
        !banned(bans, u.public_key@),
        due(u, ledger, s, now),
{
    everyone_eligible_is_chosen(users, ledger, bans, s, now, u);
}

/// A member who has a certification that stands and has not run out gets no second one.
pub proof fn no_second_cert(
    users: Seq<WorkerUser>,
    ledger: Seq<IssuanceDbRow>,
    bans: Seq<BanResponse>,
    s: WorkerSettings,
    now: i64,
    u: WorkerUser,
    i: int,
)
    requires
        0 <= i < ledger.len(),
        standing_cert(ledger[i], u.public_key@),
        now <= ledger[i].expires_at,
    ensures
        !chosen(users, ledger, bans, s, now).contains(u),
{
    if chosen(users, ledger, bans, s, now).contains(u) {
        no_cert_for_the_banned(users, ledger, bans, s, now, u);
    }
}

/// Whether the member has earned a certification: approved, no bot, not banned, a member for the
/// days of the setting, or 30 where it says nothing, and without a good one that still stands.
pub open spec fn has_earned(
    u: WorkerUser,
    ledger: Seq<IssuanceDbRow>,
    bans: Seq<BanResponse>,
    days: int,
    now: i64,
) -> bool {
    &&& u.approval_status@ == "approved"@
    &&& u.is_bot is None || u.is_bot->0 == 0
    &&& now - u.first_seen_at >= days * 86400
    &&& forall|i: int|
        0 <= i < bans.len() ==> (#[trigger] bans[i]).target_public_key@ != u.public_key@
    &&& forall|i: int|
        0 <= i < ledger.len() ==> !((#[trigger] ledger[i]).subject_pubkey@ == u.public_key@
            && ledger[i].standing@ == "good"@ && ledger[i].revoked_at is None
            && ledger[i].expires_at >= now)
}

/// A round gives a certification to everyone who has earned one and to no one else; none at all
/// where the hub does not issue them by itself.
pub proof fn a_round_rewards_those_who_earned_it(
    users: &Vec<WorkerUser>,
    ledger: &Vec<IssuanceDbRow>,
    bans: &Vec<BanResponse>,
    settings: &WorkerSettings,
    now: i64,
    r: Vec<String>,
    days: int,
    i: int,
    k: int,
)
    requires
        call_ensures(tick, (users, ledger, bans, settings, now), r),
        settings.standing_days is None ==> days == 30,
        settings.standing_days matches Some(s) ==> match signed_value(s@) {
            Some(n) => days == n,
            None => days == 30,
        },
    ensures
        settings.auto_issue is Some && settings.auto_issue->0@ != "true"@ ==> r@.len() == 0,
        (settings.auto_issue is None || settings.auto_issue->0@ == "true"@) && 0 <= i < users@.len()
            && has_earned(users@[i], ledger@, bans@, days, now) ==> texts(r@).contains(
            users@[i].public_key@,
        ),
        0 <= k < r@.len() ==> exists|m: int|
            0 <= m < users@.len() && (#[trigger] users@[m]).public_key@ == r@[k]@ && has_earned(
                users@[m],
                ledger@,
                bans@,
                days,
                now,
            ),
{
    let all = chosen(users@, ledger@, bans@, *settings, now);
    let p = is_eligible(ledger@, bans@, *settings, now);
    let keys = keys_of(all);
    assert(texts(r@).len() == r@.len());
    assert forall|u: WorkerUser| #[trigger] p(u) == has_earned(u, ledger@, bans@, days, now) by {
        if all_expired(ledger@, u.public_key@, now) {
            assert forall|j: int| 0 <= j < ledger@.len() implies !((
            #[trigger] ledger@[j]).subject_pubkey@ == u.public_key@ && ledger@[j].standing@
                == "good"@ && ledger@[j].revoked_at is None && ledger@[j].expires_at >= now) by {
                assert(standing_cert(ledger@[j], u.public_key@) ==> ledger@[j].expires_at < now);
            }
        }
    }
    if 0 <= i < users@.len() && p(users@[i]) {
        lemma_kept(users@, p, users@[i]);
        let m: int = choose|m: int| 0 <= m < all.len() && all[m] == users@[i];
        assert(keys[m] == users@[i].public_key@);
    }
    if 0 <= k < r@.len() {
        assert(texts(r@)[k] == r@[k]@);
        assert(keys[k] == all[k].public_key@);
        assert(all.contains(all[k]));
        lemma_kept(users@, p, all[k]);
        let m: int = choose|m: int| 0 <= m < users@.len() && users@[m] == all[k];
        assert(users@[m].public_key@ == r@[k]@);
    }
}

} // verus!
