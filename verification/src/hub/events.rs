//! Events: who among the bots is told of one, what they are told, and what they are told later
//! of those they missed.
use vstd::prelude::*;
use crate::codec::{strings_from_json, strings_of_json};
use crate::hub::payload::{
    copy_payload, copy_value, lemma_value_push, members, same_payload, value_of, HubEvent,
    JsonField, JsonValue, JsonView, Payload,
};
use crate::rows::{lemma_filter_step, lemma_kept};
use crate::text::{
    begins_with, contains_text, opt_text, prefix_of, same, starts_with, take_chars, texts,
};

verus! {

/// That a bot wants to hear of a kind of event. Without a channel it does so hub-wide.
pub struct Subscription {
    pub bot_pubkey: String,
    pub event_type: String,
    pub channel_id: String,
}

/// That a bot is let into a channel. A bot with no such row is let into all.
pub struct ChannelScope {
    pub bot_pubkey: String,
    pub channel_id: String,
}

/// The capabilities of a bot, as a JSON list.
pub struct BotCapabilities {
    pub pubkey: String,
    pub capabilities: Option<String>,
}

/// An event as it is kept in the log.
pub struct AuditRow {
    pub seq: i64,
    pub event_type: String,
    pub at: i64,
    pub actor_pubkey: Option<String>,
    pub target_pubkey: Option<String>,
    pub channel_id: Option<String>,
    pub payload: Payload,
}

/// What a bot is sent of an event. One that is told later says so, and says who did it.
pub struct Envelope {
    pub bot_pubkey: String,
    pub seq: i64,
    pub event: String,
    pub hub_url: String,
    pub at: i64,
    pub payload: Payload,
    pub replayed: Option<ReplayedFrom>,
}

/// Who did it, to whom, and where.
pub struct ReplayedFrom {
    pub actor_pubkey: Option<String>,
    pub target_pubkey: Option<String>,
    pub channel_id: Option<String>,
}

/// How a replay ended: so many events were sent, or the gap reaches back too far.
pub enum ReplayResult {
    Complete { replayed: usize },
    Unavailable { earliest_seq: i64, earliest_at: i64 },
}

/// What a replay has to send, or why it cannot.
pub enum ReplayPlan {
    Send(Vec<Envelope>),
    Unavailable { earliest_seq: i64, earliest_at: i64 },
}

/// Whether the bot may see the event of the channel.
pub open spec fn in_scope(
    scopes: Seq<ChannelScope>,
    bot: Seq<char>,
    channel: Option<Seq<char>>,
) -> bool {
    match channel {
        None => true,
        Some(c) => {
            ||| forall|i: int| 0 <= i < scopes.len() ==> (#[trigger] scopes[i]).bot_pubkey@ != bot
            ||| exists|i: int|
                0 <= i < scopes.len() && (#[trigger] scopes[i]).bot_pubkey@ == bot
                    && scopes[i].channel_id@ == c
        },
    }
}

/// Whether the bot may see the event of the channel.
pub fn bot_in_scope(
    scopes: &Vec<ChannelScope>,
    bot_pubkey: &str,
    channel_id: &Option<String>,
) -> (r: bool)
    ensures
        r == in_scope(scopes@, bot_pubkey@, opt_text(*channel_id)),
{
    match channel_id {
        None => true,
        Some(c) => {
            let mut limited = false;
            let mut i: usize = 0;
            while i < scopes.len()
                invariant
                    i <= scopes@.len(),
                    opt_text(*channel_id) == Some(c@),
                    limited <==> exists|k: int|
                        0 <= k < i && (#[trigger] scopes@[k]).bot_pubkey@ == bot_pubkey@,
                    forall|k: int|
                        0 <= k < i ==> !((#[trigger] scopes@[k]).bot_pubkey@ == bot_pubkey@
                            && scopes@[k].channel_id@ == c@),
                decreases scopes@.len() - i,
            {
                if same(scopes[i].bot_pubkey.as_str(), bot_pubkey) {
                    if same(scopes[i].channel_id.as_str(), c.as_str()) {
                        assert(scopes@[i as int].bot_pubkey@ == bot_pubkey@);
                        return true;
                    }
                    limited = true;
                }
                i = i + 1;
            }
            !limited
        },
    }
}

/// The capability to read what messages say.
pub open spec fn reads_content(caps: Option<Seq<char>>) -> bool {
    match caps {
        Some(s) => match strings_of_json(s) {
            Some(v) => v.contains("can_read_message_content"@),
            None => false,
        },
        None => false,
    }
}

fn can_read_content(caps: &Option<String>) -> (r: bool)
    ensures
        r == reads_content(opt_text(*caps)),
{
    match caps {
        Some(s) => match strings_from_json(s.as_str()) {
            Some(v) => contains_text(&v, "can_read_message_content"),
            None => false,
        },
        None => false,
    }
}

/// What stands under a key after a payload was made safe for a bot that may not read messages:
/// no content and no attachments, and of a content that was a text the first 100 characters.
pub open spec fn redacted_value(f: Seq<JsonField>, key: Seq<char>) -> Option<JsonView> {
    if key == "content"@ || key == "attachments"@ {
        None
    } else if key == "content_preview"@ && value_of(f, "content"@) is Some && value_of(
        f,
        "content"@,
    )->0 is Text {
        Some(JsonView::Text(prefix_of(value_of(f, "content"@)->0->Text_0, 100)))
    } else {
        value_of(f, key)
    }
}

/// Whether a payload is the one that the bot may see of another.
pub open spec fn shown_as(shown: Payload, p: Payload, may_read: bool) -> bool {
    if may_read {
        same_payload(shown, p)
    } else {
        match p {
            Payload::Object(f) => shown is Object && forall|k: Seq<char>| #[trigger]
                value_of(members(shown), k) == redacted_value(f@, k),
            Payload::Other(_) => same_payload(shown, p),
        }
    }
}

fn last_text(f: &Vec<JsonField>, key: &str) -> (r: Option<String>)
    ensures
        match value_of(f@, key@) {
            Some(JsonView::Text(s)) => opt_text(r) == Some(s),
            _ => r is None,
        },
{
    let mut found: Option<String> = None;
    let mut i: usize = 0;
    while i < f.len()
        invariant
            i <= f@.len(),
            match value_of(f@.take(i as int), key@) {
                Some(JsonView::Text(s)) => opt_text(found) == Some(s),
                _ => found is None,
            },
        decreases f@.len() - i,
    {
        assert(f@.take(i as int + 1).drop_last() =~= f@.take(i as int));
        if same(f[i].key.as_str(), key) {
            found = match &f[i].value {
                JsonValue::Text(s) => Some(s.clone()),
                JsonValue::Raw(_) => None,
            };
        }
        i = i + 1;
    }
    assert(f@.take(f@.len() as int) =~= f@);
    found
}

/// What a bot with the capabilities may see of the payload of a message event.
pub fn maybe_redact_message_content(caps: &Option<String>, payload: &Payload) -> (r: Payload)
    ensures
        shown_as(r, *payload, reads_content(opt_text(*caps))),
{
    if can_read_content(caps) {
        return copy_payload(payload);
    }
    match payload {
        Payload::Other(_) => copy_payload(payload),
        Payload::Object(f) => {
            let preview: Option<String> = match last_text(f, "content") {
                Some(s) => Some(take_chars(s.as_str(), 100)),
                None => None,
            };
            proof {
                reveal_strlit("content");
                reveal_strlit("attachments");
                reveal_strlit("content_preview");
                assert("content"@.len() == 7 && "attachments"@.len() == 11
                    && "content_preview"@.len() == 15);
            }
            let mut out: Vec<JsonField> = Vec::new();
            let mut i: usize = 0;
            while i < f.len()
                invariant
                    i <= f@.len(),
                    "content"@ != "attachments"@,
                    "content"@ != "content_preview"@,
                    "attachments"@ != "content_preview"@,
                    forall|k: Seq<char>| #[trigger]
                        value_of(out@, k) == if k == "content"@ || k == "attachments"@ || (k
                            == "content_preview"@ && preview is Some) {
                            None
                        } else {
                            value_of(f@.take(i as int), k)
                        },
                decreases f@.len() - i,
            {
                let ghost before = out@;
                let key = f[i].key.as_str();
                let hidden = same(key, "content") || same(key, "attachments") || (same(
                    key,
                    "content_preview",
                ) && preview.is_some());
                if !hidden {
                    out.push(
                        JsonField { key: f[i].key.clone(), value: copy_value(&f[i].value) },
                    );
                }
                proof {
                    assert(f@.take(i as int + 1) =~= f@.take(i as int).push(f@[i as int]));
                    assert forall|k: Seq<char>| #[trigger]
                        value_of(out@, k) == if k == "content"@ || k == "attachments"@ || (k
                            == "content_preview"@ && preview is Some) {
                            None
                        } else {
                            value_of(f@.take(i as int + 1), k)
                        } by {
                        lemma_value_push(f@.take(i as int), f@[i as int], k);
                        assert(value_of(before, k) == if k == "content"@ || k == "attachments"@ || (
                        k == "content_preview"@ && preview is Some) {
                            None
                        } else {
                            value_of(f@.take(i as int), k)
                        });
                        if !hidden {
                            lemma_value_push(before, out@.last(), k);
                            assert(out@ =~= before.push(out@.last()));
                        }
                    }
                }
                i = i + 1;
            }
            assert(f@.take(f@.len() as int) =~= f@);
            let ghost kept = out@;
            match &preview {
                Some(p) => {
                    out.push(
                        JsonField {
                            key: "content_preview".to_owned(),
                            value: JsonValue::Text(p.clone()),
                        },
                    );
                },
                None => {},
            }
            proof {
                assert forall|k: Seq<char>| #[trigger] value_of(out@, k) == redacted_value(f@, k) by {
                    assert(value_of(kept, k) == if k == "content"@ || k == "attachments"@ || (k
                        == "content_preview"@ && preview is Some) {
                        None
                    } else {
                        value_of(f@, k)
                    });
                    if preview is Some {
                        lemma_value_push(kept, out@.last(), k);
                        assert(out@ =~= kept.push(out@.last()));
                    }
                }
            }
            Payload::Object(out)
        },
    }
}

/// A bot that may not read messages is never shown their content or attachments, and never
/// more than 100 characters of it; everything else it is shown as it is.
pub proof fn redaction_hides_content(shown: Payload, p: Payload, key: Seq<char>)
    requires
        shown_as(shown, p, false),
        p is Object,
    ensures
        value_of(members(shown), "content"@) is None,
        value_of(members(shown), "attachments"@) is None,
        value_of(members(p), "content"@) matches Some(JsonView::Text(s)) ==> (value_of(
            members(shown),
            "content_preview"@,
        ) matches Some(JsonView::Text(t)) && t.len() <= 100 && t.is_prefix_of(s)),
        key != "content"@ && key != "attachments"@ && key != "content_preview"@ ==> value_of(
            members(shown),
            key,
        ) == value_of(members(p), key),
{
    reveal_strlit("content");
    reveal_strlit("attachments");
    reveal_strlit("content_preview");
    assert("content"@.len() == 7 && "attachments"@.len() == 11 && "content_preview"@.len() == 15);
    match value_of(members(p), "content"@) {
        Some(JsonView::Text(s)) => {
            let t = prefix_of(s, 100);
            assert(value_of(members(shown), "content_preview"@) == Some(JsonView::Text(t)));
            assert(t =~= s.subrange(0, t.len() as int));
        },
        _ => {},
    }
}

/// The capabilities of the bot; none where it has no profile.
pub open spec fn caps_of(caps: Seq<BotCapabilities>, bot: Seq<char>) -> Option<Seq<char>>
    decreases caps.len(),
{
    if caps.len() == 0 {
        None
    } else if caps[0].pubkey@ == bot {
        opt_text(caps[0].capabilities)
    } else {
        caps_of(caps.skip(1), bot)
    }
}

fn find_caps(caps: &Vec<BotCapabilities>, bot: &str) -> (r: Option<String>)
    ensures
        opt_text(r) == caps_of(caps@, bot@),
{
    let mut i: usize = 0;
    assert(caps@.skip(0) =~= caps@);
    while i < caps.len()
        invariant
            i <= caps@.len(),
            caps_of(caps@, bot@) == caps_of(caps@.skip(i as int), bot@),
        decreases caps@.len() - i,
    {
        assert(caps@.skip(i as int).skip(1) =~= caps@.skip(i as int + 1));
        if same(caps[i].pubkey.as_str(), bot) {
            return caps[i].capabilities.clone();
        }
        i = i + 1;
    }
    None
}

/// Whether the event is about a message.
pub open spec fn is_message_event(event_type: Seq<char>) -> bool {
    begins_with(event_type, "message."@)
}

/// Whether the bot is shown this payload of the event.
pub open spec fn bot_sees(
    shown: Payload,
    event_type: Seq<char>,
    p: Payload,
    caps: Option<Seq<char>>,
) -> bool {
    shown_as(shown, p, !is_message_event(event_type) || reads_content(caps))
}

fn payload_for(event_type: &str, payload: &Payload, caps: &Option<String>) -> (r: Payload)
    ensures
        bot_sees(r, event_type@, *payload, opt_text(*caps)),
{
    if starts_with(event_type, "message.") {
        maybe_redact_message_content(caps, payload)
    } else {
        copy_payload(payload)
    }
}

/// Whether the bot wants to hear of the event: it subscribed to its kind, hub-wide or for its
/// channel.
pub open spec fn subscribed(
    subs: Seq<Subscription>,
    bot: Seq<char>,
    event_type: Seq<char>,
    channel: Option<Seq<char>>,
) -> bool {
    exists|i: int|
        0 <= i < subs.len() && (#[trigger] subs[i]).bot_pubkey@ == bot && wants(
            subs[i],
            event_type,
            channel,
        )
}

/// Whether the subscription is to the event.
pub open spec fn wants(
    s: Subscription,
    event_type: Seq<char>,
    channel: Option<Seq<char>>,
) -> bool {
    s.event_type@ == event_type && (s.channel_id@.len() == 0 || s.channel_id@ == match channel {
        Some(c) => c,
        None => Seq::empty(),
    })
}

/// Whether the bot is told of the event: it wants to hear of it, it is connected, and it may
/// see the channel.
pub open spec fn told(
    subs: Seq<Subscription>,
    scopes: Seq<ChannelScope>,
    connected: Seq<Seq<char>>,
    bot: Seq<char>,
    event_type: Seq<char>,
    channel: Option<Seq<char>>,
) -> bool {
    &&& subscribed(subs, bot, event_type, channel)
    &&& connected.contains(bot)
    &&& in_scope(scopes, bot, channel)
}

/// The bots that the envelopes go to.
pub open spec fn recipients(e: Seq<Envelope>) -> Seq<Seq<char>> {
    e.map_values(|x: Envelope| x.bot_pubkey@)
}

/// Whether the envelope carries the event to the bot that it names.
pub open spec fn carries(
    e: Envelope,
    event: HubEvent,
    seq: i64,
    hub_url: Seq<char>,
    now: i64,
    caps: Seq<BotCapabilities>,
) -> bool {
    &&& e.seq == seq
    &&& e.event@ == event.event_type@
    &&& e.hub_url@ == hub_url
    &&& e.at == now
    &&& e.replayed is None
    &&& bot_sees(e.payload, event.event_type@, event.payload, caps_of(caps, e.bot_pubkey@))
}

fn sent_already(out: &Vec<Envelope>, bot: &str) -> (r: bool)
    ensures
        r == recipients(out@).contains(bot@),
{
    let mut i: usize = 0;
    while i < out.len()
        invariant
            i <= out@.len(),
            forall|k: int| 0 <= k < i ==> recipients(out@)[k] != bot@,
        decreases out@.len() - i,
    {
        if same(out[i].bot_pubkey.as_str(), bot) {
            assert(recipients(out@)[i as int] == bot@);
            return true;
        }
        i = i + 1;
    }
    false
}

fn is_empty_text(s: &str) -> (r: bool)
    ensures
        r == (s@.len() == 0),
{
    s.is_empty()
}

/// Whether the row logs the event, under the number after the last one, with the whole payload.
pub open spec fn logs(r: AuditRow, event: HubEvent, last_seq: i64, now: i64) -> bool {
    &&& r.seq == last_seq + 1
    &&& r.event_type@ == event.event_type@
    &&& r.at == now
    &&& opt_text(r.actor_pubkey) == opt_text(event.actor)
    &&& opt_text(r.target_pubkey) == opt_text(event.target)
    &&& opt_text(r.channel_id) == opt_text(event.channel_id)
    &&& same_payload(r.payload, event.payload)
}

/// The one row that an event adds to the log, given the number of the last one.
pub fn log_row(event: &HubEvent, last_seq: i64, now: i64) -> (r: AuditRow)
    requires
        last_seq < i64::MAX,
    ensures
        logs(r, *event, last_seq, now),
{
    AuditRow {
        seq: last_seq + 1,
        event_type: event.event_type.clone(),
        at: now,
        actor_pubkey: event.actor.clone(),
        target_pubkey: event.target.clone(),
        channel_id: event.channel_id.clone(),
        payload: copy_payload(&event.payload),
    }
}

/// What was logged is what is told again later: a bot that would have been told of the event,
/// and comes back within the window having heard all up to it, gets it with the number and the
/// payload under which it was published.
pub proof fn logged_events_are_told_again(
    rows: Seq<AuditRow>,
    row: AuditRow,
    event: HubEvent,
    last_seq: i64,
    at: i64,
    subs: Seq<Subscription>,
    scopes: Seq<ChannelScope>,
    connected: Seq<Seq<char>>,
    bot: Seq<char>,
    now: i64,
)
    requires
        logs(row, event, last_seq, at),
        in_window(row, now),
        told(subs, scopes, connected, bot, event.event_type@, opt_text(event.channel_id)),
    ensures
        rows.push(row).filter(missed(subs, scopes, bot, last_seq, now)).contains(row),
{
    let all = rows.push(row);
    assert(all[rows.len() as int] == row);
    assert(all.contains(row));
    replay_tells_what_was_published(all, subs, scopes, connected, bot, last_seq, now, row);
}

fn is_wanted(s: &Subscription, event_type: &str, channel: &Option<String>) -> (r: bool)
    ensures
        r == wants(*s, event_type@, opt_text(*channel)),
{
    let hub_wide = is_empty_text(s.channel_id.as_str());
    let here = match channel {
        Some(c) => same(s.channel_id.as_str(), c.as_str()),
        None => hub_wide,
    };
    proof {
        if s.channel_id@.len() == 0 {
            assert(s.channel_id@ =~= Seq::<char>::empty());
        }
    }
    same(s.event_type.as_str(), event_type) && (hub_wide || here)
}

/// Publishes an event under its number: what each bot that is told of it is sent, each bot
/// once.
pub fn publish_hub_event(
    event: &HubEvent,
    seq: i64,
    now: i64,
    hub_url: &str,
    subs: &Vec<Subscription>,
    scopes: &Vec<ChannelScope>,
    caps: &Vec<BotCapabilities>,
    connected: &Vec<String>,
) -> (r: Vec<Envelope>)
    ensures
        recipients(r@).no_duplicates(),
        forall|b: Seq<char>| #[trigger]
            recipients(r@).contains(b) <==> told(
                subs@,
                scopes@,
                texts(connected@),
                b,
                event.event_type@,
                opt_text(event.channel_id),
            ),
        forall|i: int|
            0 <= i < r@.len() ==> carries(#[trigger] r@[i], *event, seq, hub_url@, now, caps@),
{
    let mut out: Vec<Envelope> = Vec::new();
    let mut i: usize = 0;
    let ghost channel = opt_text(event.channel_id);
    while i < subs.len()
        invariant
            i <= subs@.len(),
            channel == opt_text(event.channel_id),
            recipients(out@).no_duplicates(),
            forall|b: Seq<char>| #[trigger]
                recipients(out@).contains(b) <==> (texts(connected@).contains(b) && in_scope(
                    scopes@,
                    b,
                    channel,
                ) && exists|k: int|
                    0 <= k < i && (#[trigger] subs@[k]).bot_pubkey@ == b && wants(
                        subs@[k],
                        event.event_type@,
                        channel,
                    )),
            forall|k: int|
                0 <= k < out@.len() ==> carries(
                    #[trigger] out@[k],
                    *event,
                    seq,
                    hub_url@,
                    now,
                    caps@,
                ),
        decreases subs@.len() - i,
    {
        let s = &subs[i];
        let bot = s.bot_pubkey.as_str();
        if is_wanted(s, event.event_type.as_str(), &event.channel_id)
            && contains_text(connected, bot) && bot_in_scope(scopes, bot, &event.channel_id)
            && !sent_already(&out, bot) {
            let bot_caps = find_caps(caps, bot);
            let payload = payload_for(event.event_type.as_str(), &event.payload, &bot_caps);
            let ghost before = recipients(out@);
            out.push(
                Envelope {
                    bot_pubkey: s.bot_pubkey.clone(),
                    seq,
                    event: event.event_type.clone(),
                    hub_url: hub_url.to_owned(),
                    at: now,
                    payload,
                    replayed: None,
                },
            );
            proof {
                let after = recipients(out@);
                assert(after =~= before.push(bot@));
                assert forall|b: Seq<char>| #[trigger] after.contains(b) <==> (before.contains(b)
                    || b == bot@) by {
                    if before.contains(b) {
                        let m = choose|m: int| 0 <= m < before.len() && before[m] == b;
                        assert(after[m] == b);
                    }
                    assert(after[before.len() as int] == bot@);
                }
            }
        }
        i = i + 1;
    }
    out
}

/// How far back events are told again: 72 hours.
pub const REPLAY_WINDOW_SECS: i64 = 259200;

/// Whether the event is young enough to be told again.
pub open spec fn in_window(r: AuditRow, now: i64) -> bool {
    r.at >= now - REPLAY_WINDOW_SECS
}

fn is_subscribed(
    subs: &Vec<Subscription>,
    bot: &str,
    event_type: &str,
    channel: &Option<String>,
) -> (r: bool)
    ensures
        r == subscribed(subs@, bot@, event_type@, opt_text(*channel)),
{
    let mut i: usize = 0;
    while i < subs.len()
        invariant
            i <= subs@.len(),
            forall|k: int|
                0 <= k < i ==> !((#[trigger] subs@[k]).bot_pubkey@ == bot@ && wants(
                    subs@[k],
                    event_type@,
                    opt_text(*channel),
                )),
        decreases subs@.len() - i,
    {
        if same(subs[i].bot_pubkey.as_str(), bot) && is_wanted(&subs[i], event_type, channel) {
            return true;
        }
        i = i + 1;
    }
    false
}

/// The first event of the log that is young enough.
pub open spec fn earliest(rows: Seq<AuditRow>, now: i64) -> Option<AuditRow>
    decreases rows.len(),
{
    if rows.len() == 0 {
        None
    } else if in_window(rows[0], now) {
        Some(rows[0])
    } else {
        earliest(rows.skip(1), now)
    }
}

/// Whether the event is told again to the bot that has heard all up to a number.
pub open spec fn missed(
    subs: Seq<Subscription>,
    scopes: Seq<ChannelScope>,
    bot: Seq<char>,
    since_seq: i64,
    now: i64,
) -> spec_fn(AuditRow) -> bool {
    |r: AuditRow|
        r.seq > since_seq && in_window(r, now) && subscribed(
            subs,
            bot,
            r.event_type@,
            opt_text(r.channel_id),
        ) && in_scope(scopes, bot, opt_text(r.channel_id))
}

/// Whether the envelope tells the bot again of the event.
pub open spec fn retells(
    e: Envelope,
    r: AuditRow,
    bot: Seq<char>,
    hub_url: Seq<char>,
    caps: Option<Seq<char>>,
) -> bool {
    &&& e.bot_pubkey@ == bot
    &&& e.seq == r.seq
    &&& e.event@ == r.event_type@
    &&& e.hub_url@ == hub_url
    &&& e.at == r.at
    &&& e.replayed matches Some(f) && opt_text(f.actor_pubkey) == opt_text(r.actor_pubkey)
        && opt_text(f.target_pubkey) == opt_text(r.target_pubkey) && opt_text(f.channel_id)
        == opt_text(r.channel_id)
    &&& bot_sees(e.payload, r.event_type@, r.payload, caps)
}

/// What a bot that has heard all up to a number is told again, in the order of the log. Where
/// an event between that number and the first one that is young enough may be gone, nothing
/// is told, and the bot learns where the log begins.
pub fn replay_events_for_bot(
    rows: &Vec<AuditRow>,
    bot_pubkey: &str,
    since_seq: i64,
    now: i64,
    hub_url: &str,
    subs: &Vec<Subscription>,
    scopes: &Vec<ChannelScope>,
    caps: &Option<String>,
) -> (r: ReplayPlan)
    requires
        now >= i64::MIN + REPLAY_WINDOW_SECS,
    ensures
        match earliest(rows@, now) {
            None => r matches ReplayPlan::Send(e) && e@.len() == 0,
            Some(f) => if since_seq < f.seq - 1 {
                r matches ReplayPlan::Unavailable { earliest_seq, earliest_at } && earliest_seq
                    == f.seq && earliest_at == f.at
            } else {
                r matches ReplayPlan::Send(e) && retell_all(
                    e@,
                    rows@.filter(missed(subs@, scopes@, bot_pubkey@, since_seq, now)),
                    bot_pubkey@,
                    hub_url@,
                    opt_text(*caps),
                )
            },
        },
{
    let first = match first_young(rows, now) {
        Some(i) => i,
        None => return ReplayPlan::Send(Vec::new()),
    };
    let first_seq: i64 = rows[first].seq;
    if since_seq < i64::MAX && since_seq + 1 < first_seq {
        return ReplayPlan::Unavailable { earliest_seq: first_seq, earliest_at: rows[first].at };
    }
    ReplayPlan::Send(missed_by(rows, bot_pubkey, since_seq, now, hub_url, subs, scopes, caps))
}

fn first_young(rows: &Vec<AuditRow>, now: i64) -> (r: Option<usize>)
    requires
        now >= i64::MIN + REPLAY_WINDOW_SECS,
    ensures
        match earliest(rows@, now) {
            Some(f) => r matches Some(i) && i < rows@.len() && rows@[i as int] == f,
            None => r is None,
        },
{
    let window_start: i64 = now - REPLAY_WINDOW_SECS;
    let mut i: usize = 0;
    assert(rows@.skip(0) =~= rows@);
    while i < rows.len() && rows[i].at < window_start
        invariant
            i <= rows@.len(),
            window_start == now - REPLAY_WINDOW_SECS,
            earliest(rows@, now) == earliest(rows@.skip(i as int), now),
        decreases rows@.len() - i,
    {
        assert(rows@.skip(i as int).skip(1) =~= rows@.skip(i as int + 1));
        i = i + 1;
    }
    if i == rows.len() {
        return None;
    }
    assert(rows@.skip(i as int)[0] == rows@[i as int]);
    Some(i)
}

fn was_missed(
    row: &AuditRow,
    bot_pubkey: &str,
    since_seq: i64,
    now: i64,
    subs: &Vec<Subscription>,
    scopes: &Vec<ChannelScope>,
) -> (r: bool)
    requires
        now >= i64::MIN + REPLAY_WINDOW_SECS,
    ensures
        r == missed(subs@, scopes@, bot_pubkey@, since_seq, now)(*row),
{
    row.seq > since_seq && row.at >= now - REPLAY_WINDOW_SECS && is_subscribed(
        subs,
        bot_pubkey,
        row.event_type.as_str(),
        &row.channel_id,
    ) && bot_in_scope(scopes, bot_pubkey, &row.channel_id)
}

fn retelling(row: &AuditRow, bot_pubkey: &str, hub_url: &str, caps: &Option<String>) -> (e:
    Envelope)
    ensures
        retells(e, *row, bot_pubkey@, hub_url@, opt_text(*caps)),
{
    Envelope {
        bot_pubkey: bot_pubkey.to_owned(),
        seq: row.seq,
        event: row.event_type.clone(),
        hub_url: hub_url.to_owned(),
        at: row.at,
        payload: payload_for(row.event_type.as_str(), &row.payload, caps),
        replayed: Some(
            ReplayedFrom {
                actor_pubkey: row.actor_pubkey.clone(),
                target_pubkey: row.target_pubkey.clone(),
                channel_id: row.channel_id.clone(),
            },
        ),
    }
}

/// Whether the envelopes tell the bot again of the events, one for one.
pub open spec fn retell_all(
    e: Seq<Envelope>,
    rows: Seq<AuditRow>,
    bot: Seq<char>,
    hub_url: Seq<char>,
    caps: Option<Seq<char>>,
) -> bool {
    &&& e.len() == rows.len()
    &&& forall|i: int| 0 <= i < rows.len() ==> retells(#[trigger] e[i], rows[i], bot, hub_url, caps)
}

fn missed_by(
    rows: &Vec<AuditRow>,
    bot_pubkey: &str,
    since_seq: i64,
    now: i64,
    hub_url: &str,
    subs: &Vec<Subscription>,
    scopes: &Vec<ChannelScope>,
    caps: &Option<String>,
) -> (r: Vec<Envelope>)
    requires
        now >= i64::MIN + REPLAY_WINDOW_SECS,
    ensures
        retell_all(
            r@,
            rows@.filter(missed(subs@, scopes@, bot_pubkey@, since_seq, now)),
            bot_pubkey@,
            hub_url@,
            opt_text(*caps),
        ),
{
    let ghost p = missed(subs@, scopes@, bot_pubkey@, since_seq, now);
    let mut out: Vec<Envelope> = Vec::new();
    let mut j: usize = 0;
    proof {
        reveal(Seq::filter);
        assert(rows@.take(0) =~= Seq::<AuditRow>::empty());
    }
    while j < rows.len()
        invariant
            now >= i64::MIN + REPLAY_WINDOW_SECS,
            j <= rows@.len(),
            p == missed(subs@, scopes@, bot_pubkey@, since_seq, now),
            retell_all(
                out@,
                rows@.take(j as int).filter(p),
                bot_pubkey@,
                hub_url@,
                opt_text(*caps),
            ),
        decreases rows@.len() - j,
    {
        proof {
            lemma_filter_step(rows@, p, j as int);
        }
        if was_missed(&rows[j], bot_pubkey, since_seq, now, subs, scopes) {
            out.push(retelling(&rows[j], bot_pubkey, hub_url, caps));
        }
        j = j + 1;
    }
    assert(rows@.take(rows@.len() as int) =~= rows@);
    out
}

/// How the replay ended, given how many of the envelopes could be sent.
pub fn replay_result(plan: &ReplayPlan, sent: usize) -> (r: ReplayResult)
    ensures
        r == match plan {
            ReplayPlan::Send(_) => ReplayResult::Complete { replayed: sent },
            ReplayPlan::Unavailable { earliest_seq, earliest_at } => ReplayResult::Unavailable {
                earliest_seq: *earliest_seq,
                earliest_at: *earliest_at,
            },
        },
{
    match plan {
        ReplayPlan::Send(_) => ReplayResult::Complete { replayed: sent },
        ReplayPlan::Unavailable { earliest_seq, earliest_at } => ReplayResult::Unavailable {
            earliest_seq: *earliest_seq,
            earliest_at: *earliest_at,
        },
    }
}

/// The number of the latest event; 0 where none is known.
pub fn current_seq(stored: Option<i64>) -> (r: i64)
    ensures
        r == match stored {
            Some(n) => n,
            None => 0,
        },
{
    match stored {
        Some(n) => n,
        None => 0,
    }
}

/// A bot hears of an event once: what it was told live, under a number that it has since
/// passed, is not told again.
pub proof fn replay_skips_what_was_heard(
    rows: Seq<AuditRow>,
    subs: Seq<Subscription>,
    scopes: Seq<ChannelScope>,
    bot: Seq<char>,
    since_seq: i64,
    now: i64,
    r: AuditRow,
)
    requires
        rows.filter(missed(subs, scopes, bot, since_seq, now)).contains(r),
    ensures
        r.seq > since_seq,
        in_window(r, now),
        rows.contains(r),
{
    let p = missed(subs, scopes, bot, since_seq, now);
    let told = rows.filter(p);
    let k = choose|k: int| 0 <= k < told.len() && told[k] == r;
    rows.lemma_filter_pred(p, k);
    rows.lemma_filter_contains_rev(p, r);
}

/// A bot is told again only of what it would have been told live: what it subscribed to, in
/// the channel in which it happened, and within the channels that it may see.
pub proof fn replay_tells_what_was_published(
    rows: Seq<AuditRow>,
    subs: Seq<Subscription>,
    scopes: Seq<ChannelScope>,
    connected: Seq<Seq<char>>,
    bot: Seq<char>,
    since_seq: i64,
    now: i64,
    r: AuditRow,
)
    requires
        connected.contains(bot),
        rows.contains(r),
        r.seq > since_seq,
        in_window(r, now),
    ensures
        rows.filter(missed(subs, scopes, bot, since_seq, now)).contains(r) <==> told(
            subs,
            scopes,
            connected,
            bot,
            r.event_type@,
            opt_text(r.channel_id),
        ),
{
    let p = missed(subs, scopes, bot, since_seq, now);
    let again = rows.filter(p);
    if again.contains(r) {
        let k = choose|k: int| 0 <= k < again.len() && again[k] == r;
        rows.lemma_filter_pred(p, k);
    }
    if p(r) {
        let k = choose|k: int| 0 <= k < rows.len() && rows[k] == r;
        rows.lemma_filter_contains(p, k);
    }
}

/// Whether a bot is let into the channel: it is let into it by name, or not held to any channel.
pub open spec fn is_let_in(
    scopes: Seq<ChannelScope>,
    bot: Seq<char>,
    channel: Option<Seq<char>>,
) -> bool {
    ||| channel is None
    ||| forall|i: int| 0 <= i < scopes.len() ==> (#[trigger] scopes[i]).bot_pubkey@ != bot
    ||| exists|i: int|
        0 <= i < scopes.len() && (#[trigger] scopes[i]).bot_pubkey@ == bot && Some(
            scopes[i].channel_id@,
        ) == channel
}

/// Whether a bot asked to hear of the kind of event, in all channels or in this one.
pub open spec fn has_asked(
    subs: Seq<Subscription>,
    bot: Seq<char>,
    kind: Seq<char>,
    channel: Option<Seq<char>>,
) -> bool {
    exists|i: int|
        0 <= i < subs.len() && (#[trigger] subs[i]).bot_pubkey@ == bot && subs[i].event_type@
            == kind && (subs[i].channel_id@.len() == 0 || Some(subs[i].channel_id@) == channel)
}

/// To have asked is to be subscribed.
proof fn lemma_asked(
    subs: Seq<Subscription>,
    bot: Seq<char>,
    kind: Seq<char>,
    channel: Option<Seq<char>>,
)
    ensures
        has_asked(subs, bot, kind, channel) <==> subscribed(subs, bot, kind, channel),
{
    if subscribed(subs, bot, kind, channel) {
        let i: int = choose|i: int|
            0 <= i < subs.len() && (#[trigger] subs[i]).bot_pubkey@ == bot && wants(
                subs[i],
                kind,
                channel,
            );
        assert(subs[i].channel_id@.len() == 0 || Some(subs[i].channel_id@) == channel);
    }
    if has_asked(subs, bot, kind, channel) {
        let i: int = choose|i: int|
            0 <= i < subs.len() && (#[trigger] subs[i]).bot_pubkey@ == bot && subs[i].event_type@
                == kind && (subs[i].channel_id@.len() == 0 || Some(subs[i].channel_id@) == channel);
        assert(wants(subs[i], kind, channel));
    }
}

/// An event is sent to every bot that asked to hear of its kind, is connected and is let into the
/// channel, to no other bot, and to each once: with its number, its kind and its time.
pub proof fn an_event_reaches_the_bots_that_asked(
    event: &HubEvent,
    seq: i64,
    now: i64,
    hub_url: &str,
    subs: &Vec<Subscription>,
    scopes: &Vec<ChannelScope>,
    caps: &Vec<BotCapabilities>,
    connected: &Vec<String>,
    r: Vec<Envelope>,
    bot: Seq<char>,
    i: int,
    j: int,
)
    requires
        call_ensures(
            publish_hub_event,
            (event, seq, now, hub_url, subs, scopes, caps, connected),
            r,
        ),
    ensures
        (exists|k: int| 0 <= k < r@.len() && (#[trigger] r@[k]).bot_pubkey@ == bot) <==> has_asked(
            subs@,
            bot,
            event.event_type@,
            opt_text(event.channel_id),
        ) && texts(connected@).contains(bot) && is_let_in(scopes@, bot, opt_text(event.channel_id)),
        0 <= i < j < r@.len() ==> r@[i].bot_pubkey@ != r@[j].bot_pubkey@,
        0 <= i < r@.len() ==> r@[i].seq == seq && r@[i].event@ == event.event_type@ && r@[i].at
            == now && r@[i].hub_url@ == hub_url@ && r@[i].replayed is None,
{
    let to = recipients(r@);
    let channel = opt_text(event.channel_id);
    lemma_asked(subs@, bot, event.event_type@, channel);
    assert(to.len() == r@.len());
    assert forall|k: int| 0 <= k < r@.len() implies #[trigger] to[k] == r@[k].bot_pubkey@ by {}
    assert(in_scope(scopes@, bot, channel) <==> is_let_in(scopes@, bot, channel));
    assert(to.contains(bot) <==> told(
        subs@,
        scopes@,
        texts(connected@),
        bot,
        event.event_type@,
        channel,
    ));
    if exists|k: int| 0 <= k < r@.len() && (#[trigger] r@[k]).bot_pubkey@ == bot {
        let k: int = choose|k: int| 0 <= k < r@.len() && (#[trigger] r@[k]).bot_pubkey@ == bot;
        assert(to[k] == bot);
        assert(to.contains(bot));
    }
    if to.contains(bot) {
        let k: int = choose|k: int| 0 <= k < to.len() && to[k] == bot;
        assert(r@[k].bot_pubkey@ == bot);
    }
    if 0 <= i < j < r@.len() {
        assert(to[i] != to[j]);
    }
    if 0 <= i < r@.len() {
        assert(carries(r@[i], *event, seq, hub_url@, now, caps@));
    }
}

/// Of an event that is about no message every bot is sent all; of one that is about a message a
/// bot that may not read messages is sent neither its content nor its attachments, but at most
/// the first hundred characters.
pub proof fn bots_see_what_they_may_read(
    event: &HubEvent,
    seq: i64,
    now: i64,
    hub_url: &str,
    subs: &Vec<Subscription>,
    scopes: &Vec<ChannelScope>,
    caps: &Vec<BotCapabilities>,
    connected: &Vec<String>,
    r: Vec<Envelope>,
    i: int,
    key: Seq<char>,
)
    requires
        call_ensures(
            publish_hub_event,
            (event, seq, now, hub_url, subs, scopes, caps, connected),
            r,
        ),
        0 <= i < r@.len(),
        event.payload is Object,
    ensures
        !"message."@.is_prefix_of(event.event_type@) ==> value_of(members(r@[i].payload), key)
            == value_of(members(event.payload), key),
        "message."@.is_prefix_of(event.event_type@) && (forall|k: int|
            0 <= k < caps@.len() ==> (#[trigger] caps@[k]).pubkey@ != r@[i].bot_pubkey@) ==> ({
            let seen = members(r@[i].payload);
            let all = members(event.payload);
            &&& value_of(seen, "content"@) is None
            &&& value_of(seen, "attachments"@) is None
            &&& value_of(all, "content"@) matches Some(JsonView::Text(s)) ==> (value_of(
                seen,
                "content_preview"@,
            ) matches Some(JsonView::Text(t)) && t.len() <= 100 && t.is_prefix_of(s) && (s.len()
                <= 100 ==> t == s))
            &&& key != "content"@ && key != "attachments"@ && key != "content_preview"@
                ==> value_of(seen, key) == value_of(all, key)
        }),
        (exists|k: int|
            0 <= k < caps@.len() && (#[trigger] caps@[k]).pubkey@ == r@[i].bot_pubkey@
                && caps@[k].capabilities is Some && strings_of_json(caps@[k].capabilities->0@)
                is Some && strings_of_json(caps@[k].capabilities->0@)->0.contains(
                "can_read_message_content"@,
            ) && forall|m: int|
                0 <= m < k ==> (#[trigger] caps@[m]).pubkey@ != r@[i].bot_pubkey@) ==> value_of(
            members(r@[i].payload),
            key,
        ) == value_of(members(event.payload), key),
{
    assert(carries(r@[i], *event, seq, hub_url@, now, caps@));
    let bot = r@[i].bot_pubkey@;
    if forall|k: int| 0 <= k < caps@.len() ==> (#[trigger] caps@[k]).pubkey@ != bot {
        lemma_no_caps(caps@, bot);
        if is_message_event(event.event_type@) {
            redaction_hides_content(r@[i].payload, event.payload, key);
        }
    }
    if exists|k: int|
        0 <= k < caps@.len() && (#[trigger] caps@[k]).pubkey@ == bot && caps@[k].capabilities is Some
            && strings_of_json(caps@[k].capabilities->0@) is Some && strings_of_json(
            caps@[k].capabilities->0@,
        )->0.contains("can_read_message_content"@) && forall|m: int|
            0 <= m < k ==> (#[trigger] caps@[m]).pubkey@ != bot {
        let k: int = choose|k: int|
            0 <= k < caps@.len() && (#[trigger] caps@[k]).pubkey@ == bot && caps@[k].capabilities
                is Some && strings_of_json(caps@[k].capabilities->0@) is Some && strings_of_json(
                caps@[k].capabilities->0@,
            )->0.contains("can_read_message_content"@) && forall|m: int|
                0 <= m < k ==> (#[trigger] caps@[m]).pubkey@ != bot;
        lemma_caps_at(caps@, bot, k);
    }
}

/// A bot without a profile has no capabilities.
proof fn lemma_no_caps(caps: Seq<BotCapabilities>, bot: Seq<char>)
    requires
        forall|k: int| 0 <= k < caps.len() ==> (#[trigger] caps[k]).pubkey@ != bot,
    ensures
        caps_of(caps, bot) is None,
    decreases caps.len(),
{
    if caps.len() > 0 {
        assert(caps[0].pubkey@ != bot);
        assert forall|k: int| 0 <= k < caps.skip(1).len() implies (#[trigger] caps.skip(
            1,
        )[k]).pubkey@ != bot by {
            assert(caps.skip(1)[k] == caps[k + 1]);
        }
        lemma_no_caps(caps.skip(1), bot);
    }
}

/// The first profile of a bot says what its capabilities are.
proof fn lemma_caps_at(caps: Seq<BotCapabilities>, bot: Seq<char>, k: int)
    requires
        0 <= k < caps.len(),
        caps[k].pubkey@ == bot,
        forall|m: int| 0 <= m < k ==> (#[trigger] caps[m]).pubkey@ != bot,
    ensures
        caps_of(caps, bot) == opt_text(caps[k].capabilities),
    decreases k,
{
    if k > 0 {
        assert(caps[0].pubkey@ != bot);
        assert(caps.skip(1)[k - 1] == caps[k]);
        assert forall|m: int| 0 <= m < k - 1 implies (#[trigger] caps.skip(1)[m]).pubkey@ != bot by {
            assert(caps.skip(1)[m] == caps[m + 1]);
        }
        lemma_caps_at(caps.skip(1), bot, k - 1);
    }
}

/// Whether a bot is let into a channel is as its scopes say.
pub proof fn scopes_let_bots_in(
    scopes: &Vec<ChannelScope>,
    bot: &str,
    channel: &Option<String>,
    r: bool,
)
    requires
        call_ensures(bot_in_scope, (scopes, bot, channel), r),
    ensures
        r <==> is_let_in(scopes@, bot@, opt_text(*channel)),
{
    assert(in_scope(scopes@, bot@, opt_text(*channel)) <==> is_let_in(
        scopes@,
        bot@,
        opt_text(*channel),
    ));
}

/// What may be read of a message goes by the capabilities: with the one to read messages all of
/// it, without it neither content nor attachments.
pub proof fn reading_takes_the_capability(
    caps: &Option<String>,
    payload: &Payload,
    r: Payload,
    key: Seq<char>,
)
    requires
        call_ensures(maybe_redact_message_content, (caps, payload), r),
        *payload is Object,
    ensures
        caps is Some && strings_of_json(caps->0@) is Some && strings_of_json(caps->0@)->0.contains(
            "can_read_message_content"@,
        ) ==> value_of(members(r), key) == value_of(members(*payload), key),
        caps is None || strings_of_json(caps->0@) is None || !strings_of_json(
            caps->0@,
        )->0.contains("can_read_message_content"@) ==> value_of(members(r), "content"@) is None
            && value_of(members(r), "attachments"@) is None && (key != "content"@ && key
            != "attachments"@ && key != "content_preview"@ ==> value_of(members(r), key)
            == value_of(members(*payload), key)),
{
    if !reads_content(opt_text(*caps)) {
        redaction_hides_content(r, *payload, key);
    }
}

/// An event is logged under the next number, with who did it, to whom, where, and all that it
/// says.
pub proof fn an_event_is_logged_whole(
    event: &HubEvent,
    last_seq: i64,
    now: i64,
    r: AuditRow,
    key: Seq<char>,
)
    requires
        last_seq < i64::MAX,
        call_ensures(log_row, (event, last_seq, now), r),
    ensures
        r.seq == last_seq + 1,
        r.event_type@ == event.event_type@,
        r.at == now,
        opt_text(r.actor_pubkey) == opt_text(event.actor),
        opt_text(r.target_pubkey) == opt_text(event.target),
        opt_text(r.channel_id) == opt_text(event.channel_id),
        event.payload is Object ==> r.payload is Object && value_of(members(r.payload), key)
            == value_of(members(event.payload), key),
{
    if event.payload is Object {
        assert(value_of(members(r.payload), key) == value_of(members(event.payload), key));
    }
}

/// The first event that is young enough stands before every other that is.
proof fn lemma_earliest(rows: Seq<AuditRow>, now: i64)
    ensures
        match earliest(rows, now) {
            Some(f) => rows.contains(f) && in_window(f, now),
            None => forall|i: int| 0 <= i < rows.len() ==> !in_window(#[trigger] rows[i], now),
        },
    decreases rows.len(),
{
    if rows.len() > 0 {
        if in_window(rows[0], now) {
            assert(rows.contains(rows[0]));
        } else {
            lemma_earliest(rows.skip(1), now);
            match earliest(rows.skip(1), now) {
                Some(f) => {
                    let i: int = choose|i: int| 0 <= i < rows.skip(1).len() && rows.skip(1)[i] == f;
                    assert(rows[i + 1] == f);
                },
                None => {
                    assert forall|i: int| 0 <= i < rows.len() implies !in_window(
                        #[trigger] rows[i],
                        now,
                    ) by {
                        if i > 0 {
                            assert(rows.skip(1)[i - 1] == rows[i]);
                        }
                    }
                },
            }
        }
    }
}

/// A bot that comes back is told again of each event of the last three days that it has not heard
/// yet, asked for and is let to see, and of nothing else; with the number, the time and the maker
/// under which it was published. Where events may be missing it is told where the log begins.
pub proof fn a_bot_is_told_what_it_missed(
    rows: &Vec<AuditRow>,
    bot: &str,
    since: i64,
    now: i64,
    hub_url: &str,
    subs: &Vec<Subscription>,
    scopes: &Vec<ChannelScope>,
    caps: &Option<String>,
    r: ReplayPlan,
    i: int,
    k: int,
)
    requires
        now >= i64::MIN + 259200,
        call_ensures(
            replay_events_for_bot,
            (rows, bot, since, now, hub_url, subs, scopes, caps),
            r,
        ),
    ensures
        (forall|m: int| 0 <= m < rows@.len() ==> now - (#[trigger] rows@[m]).at > 72 * 3600) ==> r
            is Send && r->Send_0@.len() == 0,
        r matches ReplayPlan::Unavailable { earliest_seq, earliest_at } ==> since < earliest_seq - 1
            && exists|m: int|
            0 <= m < rows@.len() && (#[trigger] rows@[m]).seq == earliest_seq && rows@[m].at
                == earliest_at && now - rows@[m].at <= 72 * 3600,
        r is Send && 0 <= i < rows@.len() && rows@[i].seq > since && now - rows@[i].at <= 72 * 3600
            && has_asked(subs@, bot@, rows@[i].event_type@, opt_text(rows@[i].channel_id))
            && is_let_in(scopes@, bot@, opt_text(rows@[i].channel_id)) ==> exists|m: int|
            0 <= m < r->Send_0@.len() && (#[trigger] r->Send_0@[m]).seq == rows@[i].seq
                && r->Send_0@[m].event@ == rows@[i].event_type@ && r->Send_0@[m].at == rows@[i].at,
        r is Send && 0 <= k < r->Send_0@.len() ==> ({
            let e = r->Send_0@[k];
            &&& e.bot_pubkey@ == bot@
            &&& e.hub_url@ == hub_url@
            &&& e.seq > since
            &&& now - e.at <= 72 * 3600
            &&& e.replayed is Some
            &&& exists|m: int|
                0 <= m < rows@.len() && (#[trigger] rows@[m]).seq == e.seq && rows@[m].event_type@
                    == e.event@ && rows@[m].at == e.at && opt_text(e.replayed->0.actor_pubkey)
                    == opt_text(rows@[m].actor_pubkey) && opt_text(e.replayed->0.channel_id)
                    == opt_text(rows@[m].channel_id) && opt_text(e.replayed->0.target_pubkey)
                    == opt_text(rows@[m].target_pubkey) && has_asked(
                    subs@,
                    bot@,
                    rows@[m].event_type@,
                    opt_text(rows@[m].channel_id),
                ) && is_let_in(scopes@, bot@, opt_text(rows@[m].channel_id))
        }),
{
    lemma_earliest(rows@, now);
    let p = missed(subs@, scopes@, bot@, since, now);
    let some = rows@.filter(p);
    match earliest(rows@, now) {
        Some(f) => {
            let m: int = choose|m: int| 0 <= m < rows@.len() && rows@[m] == f;
            assert(rows@[m].seq == f.seq);
        },
        None => {
            if 0 <= i < rows@.len() {
                assert(!in_window(rows@[i], now));
            }
        },
    }
    if r is Send && earliest(rows@, now) is Some {
        if 0 <= i < rows@.len() {
            let c = opt_text(rows@[i].channel_id);
            lemma_asked(subs@, bot@, rows@[i].event_type@, c);
            assert(in_scope(scopes@, bot@, c) <==> is_let_in(scopes@, bot@, c));
            lemma_kept(rows@, p, rows@[i]);
            if p(rows@[i]) {
                let m: int = choose|m: int| 0 <= m < some.len() && some[m] == rows@[i];
                assert(retells(r->Send_0@[m], some[m], bot@, hub_url@, opt_text(*caps)));
            }
        }
        if 0 <= k < r->Send_0@.len() {
            assert(retells(r->Send_0@[k], some[k], bot@, hub_url@, opt_text(*caps)));
            assert(some.contains(some[k]));
            lemma_kept(rows@, p, some[k]);
            let m: int = choose|m: int| 0 <= m < rows@.len() && rows@[m] == some[k];
            let c = opt_text(rows@[m].channel_id);
            lemma_asked(subs@, bot@, rows@[m].event_type@, c);
            assert(in_scope(scopes@, bot@, c) <==> is_let_in(scopes@, bot@, c));
            assert(rows@[m].seq == r->Send_0@[k].seq);
        }
    }
}

/// A replay that could be made is complete with what was sent; where the log does not reach back
/// far enough, that is the result. Without a log the numbers begin at nothing.
pub proof fn a_replay_ends_as_it_went(
    plan: &ReplayPlan,
    sent: usize,
    r: ReplayResult,
    stored: Option<i64>,
    n: i64,
)
    requires
        call_ensures(replay_result, (plan, sent), r),
        call_ensures(current_seq, (stored,), n),
    ensures
        *plan is Send <==> r is Complete,
        r matches ReplayResult::Complete { replayed } ==> replayed == sent,
        *plan matches ReplayPlan::Unavailable { earliest_seq, earliest_at } ==> (r
            matches ReplayResult::Unavailable { earliest_seq: a, earliest_at: b } && a
            == earliest_seq && b == earliest_at),
        stored is None ==> n == 0,
        stored matches Some(k) ==> n == k,
{
}

} // verus!
