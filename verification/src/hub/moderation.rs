//! Bans, mutes, timeouts and kicks.
use vstd::prelude::*;
use crate::hub::permissions::{
    allows, lemma_may_is_allowed, UserPermissions, ADMIN, BAN_MEMBERS, KICK_MEMBERS, MUTE_MEMBERS, TIMEOUT_MEMBERS,
};
use crate::hub::payload::{
    concerns, empty_object, field, nullable, nullable_view, one_member, HubEvent, JsonField,
    Payload,
};
use crate::hub::{hub_refusal, refuse, refused, HubError, HubRefusal};
use crate::rows::{is_not, lemma_filter_step, lemma_kept, remove_id, removed_is_gone, Identified};
use crate::text::{opt_text, same};

verus! {

pub struct BanRequest {
    pub target_public_key: String,
    pub reason: Option<String>,
}

/// A ban, as it is stored and shown.
pub struct BanResponse {
    pub target_public_key: String,
    pub banned_by: String,
    pub reason: Option<String>,
    pub created_at: i64,
}

pub struct MuteRequest {
    pub target_public_key: String,
    pub reason: Option<String>,
}

/// A mute, as it is stored and shown. Without an end it lasts until it is lifted.
pub struct MuteResponse {
    pub target_public_key: String,
    pub muted_by: String,
    pub reason: Option<String>,
    pub expires_at: Option<i64>,
    pub created_at: i64,
}

pub struct TimeoutRequest {
    pub target_public_key: String,
    pub reason: Option<String>,
    pub duration_seconds: u32,
}

pub struct KickRequest {
    pub target_public_key: String,
}

pub struct ChannelBanRequest {
    pub target_public_key: String,
    pub reason: Option<String>,
}

/// A ban from one channel, as it is stored and shown.
pub struct ChannelBanResponse {
    pub channel_id: String,
    pub target_public_key: String,
    pub banned_by: String,
    pub reason: Option<String>,
    pub created_at: i64,
}

pub struct VoiceMuteRequest {
    pub target_public_key: String,
    pub reason: Option<String>,
}

/// A mute in voice, as it is stored and shown.
pub struct VoiceMuteResponse {
    pub target_public_key: String,
    pub muted_by: String,
    pub reason: Option<String>,
    pub created_at: i64,
}

pub struct SetTalkPowerRequest {
    pub min_talk_power: i64,
}

pub struct TalkPowerResponse {
    pub channel_id: String,
    pub min_talk_power: i64,
}

/// Why the actor may not moderate the target, where they may not: the permission, then the
/// rank. Only someone of lower priority may be moderated.
pub open spec fn moderation_refusal(
    actor: UserPermissions,
    target: UserPermissions,
    permission: Seq<char>,
) -> Option<HubRefusal> {
    if actor.refusal(permission) is Some {
        actor.refusal(permission)
    } else if target.max_priority >= actor.max_priority {
        Some(hub_refusal(403, "Cannot moderate a user with equal or higher priority"@))
    } else {
        None
    }
}

/// Refuses where the actor may not moderate the target.
pub fn require_can_moderate(
    actor: &UserPermissions,
    target: &UserPermissions,
    permission: &str,
) -> (r: Result<(), HubError>)
    ensures
        match moderation_refusal(*actor, *target, permission@) {
            Some(d) => refused(r, d),
            None => r is Ok,
        },
{
    match actor.require(permission) {
        Ok(_) => {},
        Err(e) => return Err(e),
    }
    if target.max_priority >= actor.max_priority {
        return Err(refuse(403, "Cannot moderate a user with equal or higher priority"));
    }
    Ok(())
}

/// No one may moderate themself, whatever they hold.
pub proof fn no_one_moderates_themself(p: UserPermissions, permission: Seq<char>)
    ensures
        moderation_refusal(p, p, permission) is Some,
{
}

/// Of two users at most one may moderate the other.
pub proof fn moderation_is_one_way(
    a: UserPermissions,
    b: UserPermissions,
    permission: Seq<char>,
    other: Seq<char>,
)
    requires
        moderation_refusal(a, b, permission) is None,
    ensures
        moderation_refusal(b, a, other) is Some,
{
}

/// What a ban does: the ban to store, in place of an older one, whose sessions end, and what
/// the bots are told.
pub struct BanOutcome {
    pub ban: BanResponse,
    pub end_sessions_of: String,
    pub event: HubEvent,
}

/// Bans the target.
pub fn ban_user(
    actor_key: &str,
    actor: &UserPermissions,
    target: &UserPermissions,
    req: &BanRequest,
    now: i64,
) -> (r: Result<BanOutcome, HubError>)
    ensures
        match moderation_refusal(*actor, *target, BAN_MEMBERS@) {
            Some(d) => refused(r, d),
            None => r matches Ok(o) && o.ban.target_public_key@ == req.target_public_key@
                && o.ban.banned_by@ == actor_key@ && opt_text(o.ban.reason) == opt_text(req.reason)
                && o.ban.created_at == now && o.end_sessions_of@ == req.target_public_key@
                && concerns(
                o.event,
                "member.banned"@,
                actor_key@,
                Some(req.target_public_key@),
                None,
            ) && one_member(o.event.payload, "reason"@, nullable_view(opt_text(req.reason))),
        },
{
    match require_can_moderate(actor, target, BAN_MEMBERS) {
        Ok(_) => {},
        Err(e) => return Err(e),
    }
    let mut told: Vec<JsonField> = Vec::new();
    told.push(field("reason", nullable(&req.reason)));
    Ok(
        BanOutcome {
            ban: BanResponse {
                target_public_key: req.target_public_key.clone(),
                banned_by: actor_key.to_owned(),
                reason: req.reason.clone(),
                created_at: now,
            },
            end_sessions_of: req.target_public_key.clone(),
            event: HubEvent {
                event_type: "member.banned".to_owned(),
                actor: Some(actor_key.to_owned()),
                target: Some(req.target_public_key.clone()),
                channel_id: None,
                payload: Payload::Object(told),
            },
        },
    )
}

/// Whether the mute is the one that was asked for.
pub open spec fn mute_is(
    m: MuteResponse,
    target: Seq<char>,
    by: Seq<char>,
    reason: Option<Seq<char>>,
    expires_at: Option<i64>,
    now: i64,
) -> bool {
    &&& m.target_public_key@ == target
    &&& m.muted_by@ == by
    &&& opt_text(m.reason) == reason
    &&& m.expires_at == expires_at
    &&& m.created_at == now
}

/// Mutes the target until the mute is lifted.
pub fn mute_user(
    actor_key: &str,
    actor: &UserPermissions,
    target: &UserPermissions,
    req: &MuteRequest,
    now: i64,
) -> (r: Result<MuteResponse, HubError>)
    ensures
        match moderation_refusal(*actor, *target, MUTE_MEMBERS@) {
            Some(d) => refused(r, d),
            None => r matches Ok(m) && mute_is(
                m,
                req.target_public_key@,
                actor_key@,
                opt_text(req.reason),
                None,
                now,
            ),
        },
{
    match require_can_moderate(actor, target, MUTE_MEMBERS) {
        Ok(_) => {},
        Err(e) => return Err(e),
    }
    Ok(
        MuteResponse {
            target_public_key: req.target_public_key.clone(),
            muted_by: actor_key.to_owned(),
            reason: req.reason.clone(),
            expires_at: None,
            created_at: now,
        },
    )
}

/// Mutes the target for some seconds.
pub fn timeout_user(
    actor_key: &str,
    actor: &UserPermissions,
    target: &UserPermissions,
    req: &TimeoutRequest,
    now: i64,
) -> (r: Result<MuteResponse, HubError>)
    requires
        now + req.duration_seconds <= i64::MAX,
    ensures
        match moderation_refusal(*actor, *target, TIMEOUT_MEMBERS@) {
            Some(d) => refused(r, d),
            None => r matches Ok(m) && mute_is(
                m,
                req.target_public_key@,
                actor_key@,
                opt_text(req.reason),
                Some((now + req.duration_seconds) as i64),
                now,
            ),
        },
{
    match require_can_moderate(actor, target, TIMEOUT_MEMBERS) {
        Ok(_) => {},
        Err(e) => return Err(e),
    }
    Ok(
        MuteResponse {
            target_public_key: req.target_public_key.clone(),
            muted_by: actor_key.to_owned(),
            reason: req.reason.clone(),
            expires_at: Some(now + req.duration_seconds as i64),
            created_at: now,
        },
    )
}

/// What a kick does: whose sessions end, and what the bots are told.
pub struct KickOutcome {
    pub end_sessions_of: String,
    pub event: HubEvent,
}

/// Kicks the target.
pub fn kick_user(
    actor_key: &str,
    actor: &UserPermissions,
    target: &UserPermissions,
    req: &KickRequest,
) -> (r: Result<KickOutcome, HubError>)
    ensures
        match moderation_refusal(*actor, *target, KICK_MEMBERS@) {
            Some(d) => refused(r, d),
            None => r matches Ok(o) && o.end_sessions_of@ == req.target_public_key@ && concerns(
                o.event,
                "member.kicked"@,
                actor_key@,
                Some(req.target_public_key@),
                None,
            ) && empty_object(o.event.payload),
        },
{
    match require_can_moderate(actor, target, KICK_MEMBERS) {
        Ok(_) => Ok(
            KickOutcome {
                end_sessions_of: req.target_public_key.clone(),
                event: HubEvent {
                    event_type: "member.kicked".to_owned(),
                    actor: Some(actor_key.to_owned()),
                    target: Some(req.target_public_key.clone()),
                    channel_id: None,
                    payload: Payload::Object(Vec::new()),
                },
            },
        ),
        Err(e) => Err(e),
    }
}

/// Bans the target from a channel.
pub fn channel_ban(
    actor_key: &str,
    actor: &UserPermissions,
    target: &UserPermissions,
    channel_id: &str,
    req: &ChannelBanRequest,
    now: i64,
) -> (r: Result<ChannelBanResponse, HubError>)
    ensures
        match moderation_refusal(*actor, *target, MUTE_MEMBERS@) {
            Some(d) => refused(r, d),
            None => r matches Ok(b) && b.channel_id@ == channel_id@ && b.target_public_key@
                == req.target_public_key@ && b.banned_by@ == actor_key@ && opt_text(b.reason)
                == opt_text(req.reason) && b.created_at == now,
        },
{
    match require_can_moderate(actor, target, MUTE_MEMBERS) {
        Ok(_) => {},
        Err(e) => return Err(e),
    }
    Ok(
        ChannelBanResponse {
            channel_id: channel_id.to_owned(),
            target_public_key: req.target_public_key.clone(),
            banned_by: actor_key.to_owned(),
            reason: req.reason.clone(),
            created_at: now,
        },
    )
}

/// Mutes the target in voice.
pub fn voice_mute(
    actor_key: &str,
    actor: &UserPermissions,
    target: &UserPermissions,
    req: &VoiceMuteRequest,
    now: i64,
) -> (r: Result<VoiceMuteResponse, HubError>)
    ensures
        match moderation_refusal(*actor, *target, MUTE_MEMBERS@) {
            Some(d) => refused(r, d),
            None => r matches Ok(m) && m.target_public_key@ == req.target_public_key@
                && m.muted_by@ == actor_key@ && opt_text(m.reason) == opt_text(req.reason)
                && m.created_at == now,
        },
{
    match require_can_moderate(actor, target, MUTE_MEMBERS) {
        Ok(_) => {},
        Err(e) => return Err(e),
    }
    Ok(
        VoiceMuteResponse {
            target_public_key: req.target_public_key.clone(),
            muted_by: actor_key.to_owned(),
            reason: req.reason.clone(),
            created_at: now,
        },
    )
}

impl Identified for BanResponse {
    open spec fn row_id(&self) -> Seq<char> {
        self.target_public_key@
    }

    fn id_text(&self) -> (r: &str) {
        self.target_public_key.as_str()
    }
}

impl Identified for MuteResponse {
    open spec fn row_id(&self) -> Seq<char> {
        self.target_public_key@
    }

    fn id_text(&self) -> (r: &str) {
        self.target_public_key.as_str()
    }
}

impl Identified for VoiceMuteResponse {
    open spec fn row_id(&self) -> Seq<char> {
        self.target_public_key@
    }

    fn id_text(&self) -> (r: &str) {
        self.target_public_key.as_str()
    }
}

/// Lifts the ban of the target, where there is one. The answer has no content.
pub fn unban_user(actor: &UserPermissions, bans: &mut Vec<BanResponse>, target_key: &str) -> (r:
    Result<u16, HubError>)
    ensures
        match actor.refusal(BAN_MEMBERS@) {
            Some(d) => refused(r, d) && final(bans)@ == old(bans)@,
            None => r == Ok::<u16, HubError>(204) && final(bans)@ == old(bans)@.filter(
                is_not(target_key@),
            ),
        },
{
    match actor.require(BAN_MEMBERS) {
        Ok(_) => {},
        Err(e) => return Err(e),
    }
    remove_id(bans, target_key);
    Ok(204)
}

/// Lifts the mute of the target, where there is one. The answer has no content.
pub fn unmute_user(actor: &UserPermissions, mutes: &mut Vec<MuteResponse>, target_key: &str) -> (r:
    Result<u16, HubError>)
    ensures
        match actor.refusal(MUTE_MEMBERS@) {
            Some(d) => refused(r, d) && final(mutes)@ == old(mutes)@,
            None => r == Ok::<u16, HubError>(204) && final(mutes)@ == old(mutes)@.filter(
                is_not(target_key@),
            ),
        },
{
    match actor.require(MUTE_MEMBERS) {
        Ok(_) => {},
        Err(e) => return Err(e),
    }
    remove_id(mutes, target_key);
    Ok(204)
}

/// Lifts the mute of the target in voice, where there is one. The answer has no content.
pub fn voice_unmute(
    actor: &UserPermissions,
    mutes: &mut Vec<VoiceMuteResponse>,
    target_key: &str,
) -> (r: Result<u16, HubError>)
    ensures
        match actor.refusal(MUTE_MEMBERS@) {
            Some(d) => refused(r, d) && final(mutes)@ == old(mutes)@,
            None => r == Ok::<u16, HubError>(204) && final(mutes)@ == old(mutes)@.filter(
                is_not(target_key@),
            ),
        },
{
    match actor.require(MUTE_MEMBERS) {
        Ok(_) => {},
        Err(e) => return Err(e),
    }
    remove_id(mutes, target_key);
    Ok(204)
}

/// The bans of the channel, as a condition.
pub open spec fn is_in_channel(channel: Seq<char>) -> spec_fn(ChannelBanResponse) -> bool {
    |b: ChannelBanResponse| b.channel_id@ == channel
}

/// The bans that are not that of the target from the channel, as a condition.
pub open spec fn is_other_ban(channel: Seq<char>, target: Seq<char>) -> spec_fn(
    ChannelBanResponse,
) -> bool {
    |b: ChannelBanResponse| !(b.channel_id@ == channel && b.target_public_key@ == target)
}

/// Whether the two bans are the same.
pub open spec fn same_channel_ban(a: ChannelBanResponse, b: ChannelBanResponse) -> bool {
    &&& a.channel_id == b.channel_id
    &&& a.target_public_key == b.target_public_key
    &&& a.banned_by == b.banned_by
    &&& opt_text(a.reason) == opt_text(b.reason)
    &&& a.created_at == b.created_at
}

fn copy_channel_ban(b: &ChannelBanResponse) -> (r: ChannelBanResponse)
    ensures
        same_channel_ban(r, *b),
{
    ChannelBanResponse {
        channel_id: b.channel_id.clone(),
        target_public_key: b.target_public_key.clone(),
        banned_by: b.banned_by.clone(),
        reason: b.reason.clone(),
        created_at: b.created_at,
    }
}

/// Lifts the ban of the target from the channel: the bans that are left.
pub fn channel_unban(
    actor: &UserPermissions,
    bans: &Vec<ChannelBanResponse>,
    channel_id: &str,
    target_key: &str,
) -> (r: Result<Vec<ChannelBanResponse>, HubError>)
    ensures
        match actor.refusal(MUTE_MEMBERS@) {
            Some(d) => refused(r, d),
            None => r matches Ok(v) && v@.len() == bans@.filter(
                is_other_ban(channel_id@, target_key@),
            ).len() && (forall|i: int|
                0 <= i < v@.len() ==> same_channel_ban(
                    #[trigger] v@[i],
                    bans@.filter(is_other_ban(channel_id@, target_key@))[i],
                )),
        },
{
    match actor.require(MUTE_MEMBERS) {
        Ok(_) => {},
        Err(e) => return Err(e),
    }
    let ghost p = is_other_ban(channel_id@, target_key@);
    let mut out: Vec<ChannelBanResponse> = Vec::new();
    let mut i: usize = 0;
    assert(bans@.take(0) =~= Seq::<ChannelBanResponse>::empty());
    reveal(Seq::filter);
    while i < bans.len()
        invariant
            i <= bans@.len(),
            p == is_other_ban(channel_id@, target_key@),
            out@.len() == bans@.take(i as int).filter(p).len(),
            forall|k: int|
                0 <= k < out@.len() ==> same_channel_ban(
                    #[trigger] out@[k],
                    bans@.take(i as int).filter(p)[k],
                ),
        decreases bans@.len() - i,
    {
        proof {
            lemma_filter_step(bans@, p, i as int);
        }
        if !(same(bans[i].channel_id.as_str(), channel_id) && same(
            bans[i].target_public_key.as_str(),
            target_key,
        )) {
            out.push(copy_channel_ban(&bans[i]));
        }
        i = i + 1;
    }
    assert(bans@.take(bans@.len() as int) =~= bans@);
    Ok(out)
}

/// The bans, as they stand in the list.
pub fn list_bans(actor: &UserPermissions, bans: Vec<BanResponse>) -> (r: Result<
    Vec<BanResponse>,
    HubError,
>)
    ensures
        match actor.refusal(BAN_MEMBERS@) {
            Some(d) => refused(r, d),
            None => r == Ok::<Vec<BanResponse>, HubError>(bans),
        },
{
    match actor.require(BAN_MEMBERS) {
        Ok(_) => Ok(bans),
        Err(e) => Err(e),
    }
}

/// The mutes, as they stand in the list.
pub fn list_mutes(actor: &UserPermissions, mutes: Vec<MuteResponse>) -> (r: Result<
    Vec<MuteResponse>,
    HubError,
>)
    ensures
        match actor.refusal(MUTE_MEMBERS@) {
            Some(d) => refused(r, d),
            None => r == Ok::<Vec<MuteResponse>, HubError>(mutes),
        },
{
    match actor.require(MUTE_MEMBERS) {
        Ok(_) => Ok(mutes),
        Err(e) => Err(e),
    }
}

/// The mutes in voice, as they stand in the list.
pub fn list_voice_mutes(actor: &UserPermissions, mutes: Vec<VoiceMuteResponse>) -> (r: Result<
    Vec<VoiceMuteResponse>,
    HubError,
>)
    ensures
        match actor.refusal(MUTE_MEMBERS@) {
            Some(d) => refused(r, d),
            None => r == Ok::<Vec<VoiceMuteResponse>, HubError>(mutes),
        },
{
    match actor.require(MUTE_MEMBERS) {
        Ok(_) => Ok(mutes),
        Err(e) => Err(e),
    }
}

/// The bans from a channel, in the order in which they stand.
pub fn list_channel_bans(
    actor: &UserPermissions,
    bans: &Vec<ChannelBanResponse>,
    channel_id: &str,
) -> (r: Result<Vec<ChannelBanResponse>, HubError>)
    ensures
        match actor.refusal(MUTE_MEMBERS@) {
            Some(d) => refused(r, d),
            None => r matches Ok(v) && v@.len() == bans@.filter(is_in_channel(channel_id@)).len()
                && (forall|i: int|
                0 <= i < v@.len() ==> same_channel_ban(
                    #[trigger] v@[i],
                    bans@.filter(is_in_channel(channel_id@))[i],
                )),
        },
{
    match actor.require(MUTE_MEMBERS) {
        Ok(_) => {},
        Err(e) => return Err(e),
    }
    let ghost p = is_in_channel(channel_id@);
    let mut out: Vec<ChannelBanResponse> = Vec::new();
    let mut i: usize = 0;
    assert(bans@.take(0) =~= Seq::<ChannelBanResponse>::empty());
    reveal(Seq::filter);
    while i < bans.len()
        invariant
            i <= bans@.len(),
            p == is_in_channel(channel_id@),
            out@.len() == bans@.take(i as int).filter(p).len(),
            forall|k: int|
                0 <= k < out@.len() ==> same_channel_ban(
                    #[trigger] out@[k],
                    bans@.take(i as int).filter(p)[k],
                ),
        decreases bans@.len() - i,
    {
        proof {
            lemma_filter_step(bans@, p, i as int);
        }
        if same(bans[i].channel_id.as_str(), channel_id) {
            out.push(copy_channel_ban(&bans[i]));
        }
        i = i + 1;
    }
    assert(bans@.take(bans@.len() as int) =~= bans@);
    Ok(out)
}

/// The least talk power of a channel, set by an admin.
pub fn set_talk_power(
    actor: &UserPermissions,
    channel_id: &str,
    req: &SetTalkPowerRequest,
) -> (r: Result<TalkPowerResponse, HubError>)
    ensures
        match actor.refusal(ADMIN@) {
            Some(d) => refused(r, d),
            None => r matches Ok(t) && t.channel_id@ == channel_id@ && t.min_talk_power
                == req.min_talk_power,
        },
{
    match actor.require(ADMIN) {
        Ok(_) => Ok(
            TalkPowerResponse {
                channel_id: channel_id.to_owned(),
                min_talk_power: req.min_talk_power,
            },
        ),
        Err(e) => Err(e),
    }
}

/// The least talk power of a channel; 0 where none was set.
pub fn get_talk_power(channel_id: &str, stored: Option<i64>) -> (t: TalkPowerResponse)
    ensures
        t.channel_id@ == channel_id@,
        t.min_talk_power == match stored {
            Some(n) => n,
            None => 0,
        },
{
    TalkPowerResponse {
        channel_id: channel_id.to_owned(),
        min_talk_power: match stored {
            Some(n) => n,
            None => 0,
        },
    }
}

/// Whether some ban is one of the user.
pub open spec fn banned(bans: Seq<BanResponse>, key: Seq<char>) -> bool {
    exists|i: int| 0 <= i < bans.len() && (#[trigger] bans[i]).target_public_key@ == key
}

/// Whether the user is banned.
pub fn is_banned(bans: &Vec<BanResponse>, public_key: &str) -> (r: bool)
    ensures
        r == banned(bans@, public_key@),
{
    let mut i: usize = 0;
    while i < bans.len()
        invariant
            i <= bans@.len(),
            forall|k: int| 0 <= k < i ==> (#[trigger] bans@[k]).target_public_key@ != public_key@,
        decreases bans@.len() - i,
    {
        if same(bans[i].target_public_key.as_str(), public_key) {
            return true;
        }
        i = i + 1;
    }
    false
}

/// Whether the mute holds now: it has no end, or its end is still to come.
pub open spec fn holds(m: MuteResponse, now: i64) -> bool {
    match m.expires_at {
        None => true,
        Some(t) => t > now,
    }
}

/// Whether some mute of the user holds now.
pub open spec fn muted(mutes: Seq<MuteResponse>, key: Seq<char>, now: i64) -> bool {
    exists|i: int|
        0 <= i < mutes.len() && (#[trigger] mutes[i]).target_public_key@ == key && holds(
            mutes[i],
            now,
        )
}

/// Whether the user is muted now.
pub fn is_muted(mutes: &Vec<MuteResponse>, public_key: &str, now: i64) -> (r: bool)
    ensures
        r == muted(mutes@, public_key@, now),
{
    let mut i: usize = 0;
    while i < mutes.len()
        invariant
            i <= mutes@.len(),
            forall|k: int|
                0 <= k < i ==> !((#[trigger] mutes@[k]).target_public_key@ == public_key@ && holds(
                    mutes@[k],
                    now,
                )),
        decreases mutes@.len() - i,
    {
        let lasting = match mutes[i].expires_at {
            None => true,
            Some(t) => t > now,
        };
        if lasting && same(mutes[i].target_public_key.as_str(), public_key) {
            return true;
        }
        i = i + 1;
    }
    false
}

/// Whether some ban from the channel is one of the user.
pub open spec fn banned_from(
    bans: Seq<ChannelBanResponse>,
    channel: Seq<char>,
    key: Seq<char>,
) -> bool {
    exists|i: int|
        0 <= i < bans.len() && (#[trigger] bans[i]).channel_id@ == channel
            && bans[i].target_public_key@ == key
}

/// Whether the user is banned from the channel.
pub fn is_channel_banned(
    bans: &Vec<ChannelBanResponse>,
    channel_id: &str,
    public_key: &str,
) -> (r: bool)
    ensures
        r == banned_from(bans@, channel_id@, public_key@),
{
    let mut i: usize = 0;
    while i < bans.len()
        invariant
            i <= bans@.len(),
            forall|k: int|
                0 <= k < i ==> !((#[trigger] bans@[k]).channel_id@ == channel_id@
                    && bans@[k].target_public_key@ == public_key@),
        decreases bans@.len() - i,
    {
        if same(bans[i].channel_id.as_str(), channel_id) && same(
            bans[i].target_public_key.as_str(),
            public_key,
        ) {
            return true;
        }
        i = i + 1;
    }
    false
}

/// Whether some voice mute is one of the user.
pub open spec fn voice_muted(mutes: Seq<VoiceMuteResponse>, key: Seq<char>) -> bool {
    exists|i: int| 0 <= i < mutes.len() && (#[trigger] mutes[i]).target_public_key@ == key
}

/// Whether the user is muted in voice.
pub fn is_voice_muted(mutes: &Vec<VoiceMuteResponse>, public_key: &str) -> (r: bool)
    ensures
        r == voice_muted(mutes@, public_key@),
{
    let mut i: usize = 0;
    while i < mutes.len()
        invariant
            i <= mutes@.len(),
            forall|k: int| 0 <= k < i ==> (#[trigger] mutes@[k]).target_public_key@ != public_key@,
        decreases mutes@.len() - i,
    {
        if same(mutes[i].target_public_key.as_str(), public_key) {
            return true;
        }
        i = i + 1;
    }
    false
}

/// A timeout holds from the moment it is given until its seconds are over, and not after.
pub proof fn timeout_holds_for_its_duration(m: MuteResponse, at: i64, duration: u32, now: i64)
    requires
        at + duration <= i64::MAX,
        m.expires_at == Some((at + duration) as i64),
    ensures
        holds(m, now) <==> now < at + duration,
{
}

/// A ban that was lifted holds no more, and the ban of someone else still does.
pub proof fn lifting_a_ban_frees_the_target(
    bans: Seq<BanResponse>,
    target: Seq<char>,
    other: Seq<char>,
)
    requires
        other != target,
    ensures
        !banned(bans.filter(is_not(target)), target),
        banned(bans.filter(is_not(target)), other) == banned(bans, other),
{
    let p = is_not::<BanResponse>(target);
    let left = bans.filter(p);
    removed_is_gone(bans, target);
    assert forall|i: int| 0 <= i < left.len() implies (#[trigger] left[i]).target_public_key@
        != target by {
        assert(left[i].row_id() != target);
    }
    if banned(bans, other) {
        let k = choose|k: int|
            0 <= k < bans.len() && (#[trigger] bans[k]).target_public_key@ == other;
        assert(p(bans[k]));
        bans.lemma_filter_contains(p, k);
        let j = choose|j: int| 0 <= j < left.len() && left[j] == bans[k];
        assert(left[j].target_public_key@ == other);
    }
    if banned(left, other) {
        let k = choose|k: int|
            0 <= k < left.len() && (#[trigger] left[k]).target_public_key@ == other;
        assert(left.contains(left[k]));
        bans.lemma_filter_contains_rev(p, left[k]);
        let j = choose|j: int| 0 <= j < bans.len() && bans[j] == left[k];
        assert(bans[j].target_public_key@ == other);
    }
}

/// Whether the actor may moderate the target: they hold the permission, and rank higher.
pub open spec fn outranks(
    actor: UserPermissions,
    target: UserPermissions,
    permission: Seq<char>,
) -> bool {
    allows(actor, permission) && target.max_priority < actor.max_priority
}

/// One may moderate exactly those who rank lower, with the permission for it.
pub proof fn moderation_goes_down_the_ranks(
    actor: &UserPermissions,
    target: &UserPermissions,
    permission: &str,
    r: Result<(), HubError>,
)
    requires
        call_ensures(require_can_moderate, (actor, target, permission), r),
    ensures
        r is Ok <==> outranks(*actor, *target, permission@),
        r matches Err(e) ==> e.status == 403 && e.message@ == if allows(*actor, permission@) {
            "Cannot moderate a user with equal or higher priority"@
        } else {
            "Missing permission: "@ + permission@
        },
{
    lemma_may_is_allowed(*actor, permission@);
}

/// A ban is against the one who was named, by the one who asked, from now on; their sessions end
/// and the bots are told. Once it is stored they are banned, and no one else is by it.
pub proof fn a_ban_bans_the_target(
    actor_key: &str,
    actor: &UserPermissions,
    target: &UserPermissions,
    req: &BanRequest,
    now: i64,
    r: Result<BanOutcome, HubError>,
    bans: &Vec<BanResponse>,
    key: &str,
    banned: bool,
)
    requires
        call_ensures(ban_user, (actor_key, actor, target, req, now), r),
        r is Ok ==> exists|i: int| 0 <= i < bans@.len() && #[trigger] bans@[i] == r->Ok_0.ban,
        call_ensures(is_banned, (bans, key), banned),
    ensures
        r is Ok <==> outranks(*actor, *target, "ban_members"@),
        r matches Err(e) ==> e.status == 403,
        r matches Ok(o) ==> o.ban.target_public_key@ == req.target_public_key@ && o.ban.banned_by@
            == actor_key@ && opt_text(o.ban.reason) == opt_text(req.reason) && o.ban.created_at
            == now && o.end_sessions_of@ == req.target_public_key@,
        r matches Ok(o) ==> o.event.event_type@ == "member.banned"@ && opt_text(o.event.actor)
            == Some(actor_key@) && opt_text(o.event.target) == Some(req.target_public_key@)
            && o.event.channel_id is None,
        r is Ok && key@ == req.target_public_key@ ==> banned,
        banned <==> exists|i: int|
            0 <= i < bans@.len() && (#[trigger] bans@[i]).target_public_key@ == key@,
{
    lemma_may_is_allowed(*actor, BAN_MEMBERS@);
    if r is Ok {
        let i: int = choose|i: int| 0 <= i < bans@.len() && #[trigger] bans@[i] == r->Ok_0.ban;
        assert(bans@[i].target_public_key@ == req.target_public_key@);
    }
}

/// A mute holds until it is lifted, a timeout until its seconds are over; both are against the
/// one who was named.
pub proof fn a_mute_holds_and_a_timeout_ends(
    actor_key: &str,
    actor: &UserPermissions,
    target: &UserPermissions,
    req: &MuteRequest,
    timeout: &TimeoutRequest,
    at: i64,
    muted: Result<MuteResponse, HubError>,
    timed: Result<MuteResponse, HubError>,
    mutes: &Vec<MuteResponse>,
    timeouts: &Vec<MuteResponse>,
    key: &str,
    now: i64,
    is: bool,
    is_timed: bool,
)
    requires
        call_ensures(mute_user, (actor_key, actor, target, req, at), muted),
        at + timeout.duration_seconds <= i64::MAX,
        call_ensures(timeout_user, (actor_key, actor, target, timeout, at), timed),
        muted is Ok ==> mutes@ == seq![muted->Ok_0],
        timed is Ok ==> timeouts@ == seq![timed->Ok_0],
        call_ensures(is_muted, (mutes, key, now), is),
        call_ensures(is_muted, (timeouts, key, now), is_timed),
    ensures
        muted is Ok <==> outranks(*actor, *target, "mute_members"@),
        timed is Ok <==> outranks(*actor, *target, "timeout_members"@),
        muted matches Err(e) ==> e.status == 403,
        timed matches Err(e) ==> e.status == 403,
        muted matches Ok(m) ==> m.target_public_key@ == req.target_public_key@ && m.muted_by@
            == actor_key@ && m.expires_at is None && opt_text(m.reason) == opt_text(req.reason)
            && m.created_at == at,
        timed matches Ok(m) ==> m.target_public_key@ == timeout.target_public_key@ && m.muted_by@
            == actor_key@ && m.expires_at is Some && m.expires_at->0 == at
            + timeout.duration_seconds && opt_text(m.reason) == opt_text(timeout.reason)
            && m.created_at == at,
        muted is Ok ==> (is <==> key@ == req.target_public_key@),
        timed is Ok ==> (is_timed <==> key@ == timeout.target_public_key@ && now < at
            + timeout.duration_seconds),
{
    lemma_may_is_allowed(*actor, MUTE_MEMBERS@);
    lemma_may_is_allowed(*actor, TIMEOUT_MEMBERS@);
    if muted is Ok {
        assert(mutes@[0] == muted->Ok_0);
    }
    if timed is Ok {
        assert(timeouts@[0] == timed->Ok_0);
    }
}

/// A kick ends the sessions of the one who was named, and the bots are told.
pub proof fn a_kick_ends_the_sessions(
    actor_key: &str,
    actor: &UserPermissions,
    target: &UserPermissions,
    req: &KickRequest,
    r: Result<KickOutcome, HubError>,
)
    requires
        call_ensures(kick_user, (actor_key, actor, target, req), r),
    ensures
        r is Ok <==> outranks(*actor, *target, "kick_members"@),
        r matches Err(e) ==> e.status == 403,
        r matches Ok(o) ==> o.end_sessions_of@ == req.target_public_key@ && o.event.event_type@
            == "member.kicked"@ && opt_text(o.event.actor) == Some(actor_key@) && opt_text(
            o.event.target,
        ) == Some(req.target_public_key@),
{
    lemma_may_is_allowed(*actor, KICK_MEMBERS@);
}

/// A ban from a channel is a ban from that channel alone, and a mute in voice is one of the one
/// who was named; both take the permission to mute.
pub proof fn channel_bans_and_voice_mutes(
    actor_key: &str,
    actor: &UserPermissions,
    target: &UserPermissions,
    channel: &str,
    req: &ChannelBanRequest,
    voice: &VoiceMuteRequest,
    now: i64,
    ban: Result<ChannelBanResponse, HubError>,
    mute: Result<VoiceMuteResponse, HubError>,
    bans: &Vec<ChannelBanResponse>,
    mutes: &Vec<VoiceMuteResponse>,
    where_at: &str,
    key: &str,
    is_out: bool,
    is_quiet: bool,
)
    requires
        call_ensures(channel_ban, (actor_key, actor, target, channel, req, now), ban),
        call_ensures(voice_mute, (actor_key, actor, target, voice, now), mute),
        ban is Ok ==> bans@ == seq![ban->Ok_0],
        mute is Ok ==> mutes@ == seq![mute->Ok_0],
        call_ensures(is_channel_banned, (bans, where_at, key), is_out),
        call_ensures(is_voice_muted, (mutes, key), is_quiet),
    ensures
        ban is Ok <==> outranks(*actor, *target, "mute_members"@),
        mute is Ok <==> outranks(*actor, *target, "mute_members"@),
        ban matches Ok(b) ==> b.banned_by@ == actor_key@ && opt_text(b.reason) == opt_text(
            req.reason,
        ) && b.created_at == now,
        mute matches Ok(m) ==> m.muted_by@ == actor_key@ && opt_text(m.reason) == opt_text(
            voice.reason,
        ) && m.created_at == now,
        ban is Ok ==> (is_out <==> where_at@ == channel@ && key@ == req.target_public_key@),
        mute is Ok ==> (is_quiet <==> key@ == voice.target_public_key@),
{
    lemma_may_is_allowed(*actor, MUTE_MEMBERS@);
    if ban is Ok {
        assert(bans@[0] == ban->Ok_0);
    }
    if mute is Ok {
        assert(mutes@[0] == mute->Ok_0);
    }
}

/// What is lifted is lifted for the one who was named and for no one else, by those who may.
pub proof fn lifting_frees_the_target_alone(
    actor: &UserPermissions,
    bans: &mut Vec<BanResponse>,
    mutes: &mut Vec<MuteResponse>,
    quiet: &mut Vec<VoiceMuteResponse>,
    key: &str,
    a: Result<u16, HubError>,
    b: Result<u16, HubError>,
    c: Result<u16, HubError>,
    ban: BanResponse,
    mute: MuteResponse,
    voice: VoiceMuteResponse,
)
    requires
        call_ensures(unban_user, (actor, bans, key), a),
        call_ensures(unmute_user, (actor, mutes, key), b),
        call_ensures(voice_unmute, (actor, quiet, key), c),
    ensures
        a is Ok <==> allows(*actor, "ban_members"@),
        b is Ok <==> allows(*actor, "mute_members"@),
        c is Ok <==> allows(*actor, "mute_members"@),
        a is Ok ==> a->Ok_0 == 204 && (final(bans)@.contains(ban) <==> old(bans)@.contains(ban)
            && ban.target_public_key@ != key@),
        b is Ok ==> b->Ok_0 == 204 && (final(mutes)@.contains(mute) <==> old(mutes)@.contains(mute)
            && mute.target_public_key@ != key@),
        c is Ok ==> c->Ok_0 == 204 && (final(quiet)@.contains(voice) <==> old(quiet)@.contains(
            voice,
        ) && voice.target_public_key@ != key@),
        a is Err ==> final(bans)@ == old(bans)@ && a->Err_0.status == 403,
        b is Err ==> final(mutes)@ == old(mutes)@ && b->Err_0.status == 403,
        c is Err ==> final(quiet)@ == old(quiet)@ && c->Err_0.status == 403,
{
    lemma_may_is_allowed(*actor, BAN_MEMBERS@);
    lemma_may_is_allowed(*actor, MUTE_MEMBERS@);
    lemma_kept(old(bans)@, is_not(key@), ban);
    lemma_kept(old(mutes)@, is_not(key@), mute);
    lemma_kept(old(quiet)@, is_not(key@), voice);
}

/// A ban from a channel is lifted from that channel and for that user alone; the bans that are
/// listed are those from the channel.
pub proof fn channel_bans_are_listed_and_lifted(
    actor: &UserPermissions,
    bans: &Vec<ChannelBanResponse>,
    channel: &str,
    key: &str,
    left: Result<Vec<ChannelBanResponse>, HubError>,
    list: Result<Vec<ChannelBanResponse>, HubError>,
    other: &str,
    user: &str,
    was: bool,
    is: bool,
    k: int,
)
    requires
        call_ensures(channel_unban, (actor, bans, channel, key), left),
        call_ensures(list_channel_bans, (actor, bans, channel), list),
        call_ensures(is_channel_banned, (bans, other, user), was),
        left is Ok,
        call_ensures(is_channel_banned, (&left->Ok_0, other, user), is),
    ensures
        allows(*actor, "mute_members"@),
        is <==> was && !(other@ == channel@ && user@ == key@),
        list is Ok,
        0 <= k < list->Ok_0@.len() ==> list->Ok_0@[k].channel_id@ == channel@,
        other@ == channel@ && was ==> exists|i: int|
            0 <= i < list->Ok_0@.len() && (#[trigger] list->Ok_0@[i]).target_public_key@ == user@,
{
    lemma_may_is_allowed(*actor, MUTE_MEMBERS@);
    let p = is_other_ban(channel@, key@);
    let q = is_in_channel(channel@);
    let kept = bans@.filter(p);
    let listed = bans@.filter(q);
    if was {
        let i: int = choose|i: int|
            0 <= i < bans@.len() && (#[trigger] bans@[i]).channel_id@ == other@
                && bans@[i].target_public_key@ == user@;
        if !(other@ == channel@ && user@ == key@) {
            lemma_kept(bans@, p, bans@[i]);
            assert(p(bans@[i]));
            let j: int = choose|j: int| 0 <= j < kept.len() && kept[j] == bans@[i];
            assert(same_channel_ban(left->Ok_0@[j], kept[j]));
        }
        if other@ == channel@ {
            lemma_kept(bans@, q, bans@[i]);
            assert(q(bans@[i]));
            let j: int = choose|j: int| 0 <= j < listed.len() && listed[j] == bans@[i];
            assert(same_channel_ban(list->Ok_0@[j], listed[j]));
        }
    }
    if is {
        let j: int = choose|j: int|
            0 <= j < left->Ok_0@.len() && (#[trigger] left->Ok_0@[j]).channel_id@ == other@
                && left->Ok_0@[j].target_public_key@ == user@;
        assert(same_channel_ban(left->Ok_0@[j], kept[j]));
        assert(kept.contains(kept[j]));
        lemma_kept(bans@, p, kept[j]);
        let i: int = choose|i: int| 0 <= i < bans@.len() && bans@[i] == kept[j];
        assert(bans@[i].channel_id@ == other@);
    }
    if 0 <= k < list->Ok_0@.len() {
        assert(same_channel_ban(list->Ok_0@[k], listed[k]));
        assert(listed.contains(listed[k]));
        lemma_kept(bans@, q, listed[k]);
    }
}

/// The lists are shown as they stand to those who may ban or mute, and to no one else; the talk
/// power of a channel is set by admins only.
pub proof fn lists_are_for_moderators(
    actor: &UserPermissions,
    bans: Vec<BanResponse>,
    mutes: Vec<MuteResponse>,
    quiet: Vec<VoiceMuteResponse>,
    a: Result<Vec<BanResponse>, HubError>,
    b: Result<Vec<MuteResponse>, HubError>,
    c: Result<Vec<VoiceMuteResponse>, HubError>,
    channel: &str,
    req: &SetTalkPowerRequest,
    d: Result<TalkPowerResponse, HubError>,
    stored: Option<i64>,
    t: TalkPowerResponse,
)
    requires
        call_ensures(list_bans, (actor, bans), a),
        call_ensures(list_mutes, (actor, mutes), b),
        call_ensures(list_voice_mutes, (actor, quiet), c),
        call_ensures(set_talk_power, (actor, channel, req), d),
        call_ensures(get_talk_power, (channel, stored), t),
    ensures
        a is Ok <==> allows(*actor, "ban_members"@),
        b is Ok <==> allows(*actor, "mute_members"@),
        c is Ok <==> allows(*actor, "mute_members"@),
        d is Ok <==> allows(*actor, "admin"@),
        a matches Ok(v) ==> v == bans,
        b matches Ok(v) ==> v == mutes,
        c matches Ok(v) ==> v == quiet,
        d matches Ok(v) ==> v.channel_id@ == channel@ && v.min_talk_power == req.min_talk_power,
        t.channel_id@ == channel@,
        stored matches Some(n) ==> t.min_talk_power == n,
        stored is None ==> t.min_talk_power == 0,
{
    lemma_may_is_allowed(*actor, BAN_MEMBERS@);
    lemma_may_is_allowed(*actor, MUTE_MEMBERS@);
    lemma_may_is_allowed(*actor, ADMIN@);
}

} // verus!
