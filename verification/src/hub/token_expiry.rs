//! Warning bots whose sessions are about to end.
use vstd::prelude::*;
use crate::rows::{lemma_filter_step, lemma_kept};
use crate::text::{contains_text, texts};

verus! {

/// How long before its end a session is warned of it: 72 hours.
pub const WARN_WINDOW_SECS: i64 = 259200;

/// A session of a user. Some have no end.
pub struct SessionRow {
    pub token: String,
    pub public_key: String,
    pub is_bot: bool,
    pub expires_at: Option<i64>,
    pub expiry_warned_at: Option<i64>,
}

/// A warning: the session that is then marked as warned, its end, and whether the bot is
/// connected and can be told.
pub struct ExpiryWarning {
    pub token: String,
    pub public_key: String,
    pub expires_at: i64,
    pub push: bool,
}

/// Whether the session is due: it is a bot's, it ends within the window, and it was not warned
/// yet.
pub open spec fn due(s: SessionRow, now: i64) -> bool {
    &&& s.is_bot
    &&& s.expires_at matches Some(t) && t <= now + WARN_WINDOW_SECS
    &&& s.expiry_warned_at is None
}

/// The sessions that are due, as a condition on sessions.
pub open spec fn is_due(now: i64) -> spec_fn(SessionRow) -> bool {
    |s: SessionRow| due(s, now)
}

/// Whether the warning is that of the session.
pub open spec fn warns(w: ExpiryWarning, s: SessionRow, connected: Seq<Seq<char>>) -> bool {
    &&& w.token@ == s.token@
    &&& w.public_key@ == s.public_key@
    &&& s.expires_at == Some(w.expires_at)
    &&& w.push == connected.contains(s.public_key@)
}

/// One pass over the sessions: a warning for each that is due.
pub fn tick(sessions: &Vec<SessionRow>, connected: &Vec<String>, now: i64) -> (r: Vec<
    ExpiryWarning,
>)
    requires
        now <= i64::MAX - WARN_WINDOW_SECS,
    ensures
        ({
            let s = sessions@.filter(is_due(now));
            &&& r@.len() == s.len()
            &&& forall|i: int|
                0 <= i < s.len() ==> warns(#[trigger] r@[i], s[i], texts(connected@))
        }),
{
    let ghost p = is_due(now);
    let before: i64 = now + WARN_WINDOW_SECS;
    let mut out: Vec<ExpiryWarning> = Vec::new();
    let mut i: usize = 0;
    assert(sessions@.take(0) =~= Seq::<SessionRow>::empty());
    reveal(Seq::filter);
    while i < sessions.len()
        invariant
            i <= sessions@.len(),
            before == now + WARN_WINDOW_SECS,
            p == is_due(now),
            out@.len() == sessions@.take(i as int).filter(p).len(),
            forall|k: int|
                0 <= k < out@.len() ==> warns(
                    #[trigger] out@[k],
                    sessions@.take(i as int).filter(p)[k],
                    texts(connected@),
                ),
        decreases sessions@.len() - i,
    {
        proof {
            lemma_filter_step(sessions@, p, i as int);
        }
        let s = &sessions[i];
        match s.expires_at {
            Some(t) => {
                if s.is_bot && t <= before && s.expiry_warned_at.is_none() {
                    out.push(
                        ExpiryWarning {
                            token: s.token.clone(),
                            public_key: s.public_key.clone(),
                            expires_at: t,
                            push: contains_text(connected, s.public_key.as_str()),
                        },
                    );
                }
            },
            None => {},
        }
        i = i + 1;
    }
    assert(sessions@.take(sessions@.len() as int) =~= sessions@);
    out
}

/// A session that was marked as warned is never warned again.
pub proof fn warned_once(s: SessionRow, at: i64, now: i64)
    ensures
        !due(SessionRow { expiry_warned_at: Some(at), ..s }, now),
{
}

/// Every session of a bot that ends within three days and was not warned of it is warned, with
/// its end, and told at once where the bot is connected; no other session is warned.
pub proof fn bots_are_warned_three_days_before(
    sessions: &Vec<SessionRow>,
    connected: &Vec<String>,
    now: i64,
    r: Vec<ExpiryWarning>,
    i: int,
    k: int,
)
    requires
        now <= i64::MAX - 259200,
        call_ensures(tick, (sessions, connected, now), r),
    ensures
        0 <= i < sessions@.len() && sessions@[i].is_bot && sessions@[i].expires_at is Some
            && sessions@[i].expires_at->0 - now <= 72 * 3600 && sessions@[i].expiry_warned_at is None
            ==> exists|m: int|
            0 <= m < r@.len() && (#[trigger] r@[m]).token@ == sessions@[i].token@
                && r@[m].public_key@ == sessions@[i].public_key@ && Some(r@[m].expires_at)
                == sessions@[i].expires_at && (r@[m].push <==> texts(connected@).contains(
                sessions@[i].public_key@,
            )),
        0 <= k < r@.len() ==> exists|m: int|
            0 <= m < sessions@.len() && (#[trigger] sessions@[m]).token@ == r@[k].token@
                && sessions@[m].is_bot && sessions@[m].expiry_warned_at is None
                && sessions@[m].expires_at == Some(r@[k].expires_at) && r@[k].expires_at - now <= 72
                * 3600,
{
    let s = sessions@.filter(is_due(now));
    if 0 <= i < sessions@.len() {
        lemma_kept(sessions@, is_due(now), sessions@[i]);
        if is_due(now)(sessions@[i]) {
            let m: int = choose|m: int| 0 <= m < s.len() && s[m] == sessions@[i];
            assert(warns(r@[m], s[m], texts(connected@)));
        }
    }
    if 0 <= k < r@.len() {
        assert(warns(r@[k], s[k], texts(connected@)));
        assert(s.contains(s[k]));
        lemma_kept(sessions@, is_due(now), s[k]);
        let m: int = choose|m: int| 0 <= m < sessions@.len() && sessions@[m] == s[k];
        assert(sessions@[m].token@ == r@[k].token@);
    }
}

} // verus!
