//! One connection of a client: what it is sent, and what its messages do.
use vstd::prelude::*;
use crate::hub::chat_models::{ChatEvent, MessageResponse, VoiceParticipantInfo, WsServerMessage};
use crate::hub::messages::{may_see_answered, message_for, sees_answered};
use crate::hub::moderation::ChannelBanResponse;
use crate::hub::payload::{
    concerns, empty_object, field, nullable, nullable_view, one_member, HubEvent, JsonField,
    Payload,
};
use crate::hub::state::{DmEvent, ScreenChunkEvent, ScreenStreamMeta};
use crate::hub::voice::{
    display_name, get_voice_participants, introduces, members_in, name_in, UserName, Voice,
};
use crate::hub::{hub_refusal, refuse, refused, HubError};
use crate::table::{pair, Key, Pair, Table};
use crate::text::{concat3, contains_text, i64_text, opt_text, same, signed_decimal, texts};

verus! {

/// What is shared between all connections.
pub struct Live {
    pub voice: Voice,
    pub shares: Table<Pair, ScreenStreamMeta>,
    pub online: Table<String, ()>,
    pub bots: Table<String, ()>,
}

impl Live {
    pub open spec fn wf(self) -> bool {
        self.voice.wf() && self.shares.wf() && self.online.wf() && self.bots.wf()
    }

    /// The streams that are shared, under channel and stream.
    pub open spec fn streams(self) -> Map<(Seq<char>, Seq<char>), ScreenStreamMeta> {
        self.shares@
    }

    /// Whether in each channel only one user shares.
    pub open spec fn one_sharer(self) -> bool {
        one_sharer_each(self.streams())
    }

    /// Nothing going on.
    pub fn new() -> (l: Live)
        ensures
            l.wf(),
            l.voice.ports() == Map::<(Seq<char>, Seq<char>), u16>::empty(),
            l.voice.behind() == Map::<u64, (Seq<char>, Seq<char>)>::empty(),
            l.voice.members.keys() == Seq::<(Seq<char>, Seq<char>)>::empty(),
            l.voice.in_sync(),
            l.streams() == Map::<(Seq<char>, Seq<char>), ScreenStreamMeta>::empty(),
            l.shares.keys() == Seq::<(Seq<char>, Seq<char>)>::empty(),
            l.online@ == Map::<Seq<char>, ()>::empty(),
            l.bots@ == Map::<Seq<char>, ()>::empty(),
            l.one_sharer(),
    {
        Live {
            voice: Voice::new(),
            shares: Table::new(),
            online: Table::new(),
            bots: Table::new(),
        }
    }
}

/// Whether all streams of a channel have the same sharer.
pub open spec fn one_sharer_each(s: Map<(Seq<char>, Seq<char>), ScreenStreamMeta>) -> bool {
    forall|a: (Seq<char>, Seq<char>), b: (Seq<char>, Seq<char>)|
        #![trigger s.dom().contains(a), s.dom().contains(b)]
        s.dom().contains(a) && s.dom().contains(b) && a.0 == b.0 ==> s[a].sharer_pubkey@
            == s[b].sharer_pubkey@
}

/// A chunk that was announced and whose bytes come next.
pub struct PendingChunk {
    pub channel_id: String,
    pub stream_id: String,
    pub seq: u32,
    pub is_init: bool,
}

/// One connection. Interactions are remembered by the time, in milliseconds, of the last one.
pub struct Connection {
    pub public_key: String,
    pub is_bot: bool,
    pub subscribed: Table<String, ()>,
    pub conversations: Vec<String>,
    pub voice_channel: Option<String>,
    pub pending_chunk: Option<PendingChunk>,
    pub interactions: Table<String, u64>,
    pub replaying: bool,
    pub buffered: Vec<String>,
}

impl Connection {
    pub open spec fn wf(self) -> bool {
        self.subscribed.wf() && self.interactions.wf()
    }

    /// Whether the channel is subscribed to.
    pub open spec fn hears(self, channel: Seq<char>) -> bool {
        self.subscribed@.dom().contains(channel)
    }
}

/// What a connection asks its host to do.
pub enum Action {
    /// Greet the client with the number of the latest event.
    Hello(i64),
    /// Send the message to the client.
    Send(WsServerMessage),
    /// Send the bytes to the client.
    SendBinary(Vec<u8>),
    /// Send the event and its message to everyone in the channel.
    Chat(ChatEvent, WsServerMessage),
    /// Send the message to everyone in the voice channel.
    Voice(String, WsServerMessage),
    /// Send the event to everyone in the conversation.
    Dm(DmEvent),
    /// Send the chunk to everyone in the channel.
    Chunk(ScreenChunkEvent),
    /// Publish the event.
    Publish(HubEvent),
    /// Hand the interaction to the bot that posted the message.
    Dispatch { message_id: String, custom_id: String, values: Vec<String> },
}

/// Whether a channel is one that a user hears on connecting: no category, and not one from
/// which they are banned.
pub struct ChannelKind {
    pub id: String,
    pub is_category: bool,
}

/// Whether the user may hear the channel without asking.
pub open spec fn heard_by(
    c: ChannelKind,
    bans: Seq<ChannelBanResponse>,
    user: Seq<char>,
) -> bool {
    !c.is_category && !crate::hub::moderation::banned_from(bans, c.id@, user)
}

/// Whether one of the channels is the given one, and the user may hear it without asking.
pub open spec fn heard_first(
    channels: Seq<ChannelKind>,
    bans: Seq<ChannelBanResponse>,
    user: Seq<char>,
    channel: Seq<char>,
) -> bool {
    exists|i: int|
        0 <= i < channels.len() && (#[trigger] channels[i]).id@ == channel && heard_by(
            channels[i],
            bans,
            user,
        )
}

/// The channels that a user hears on connecting.
pub fn auto_subscribed(
    channels: &Vec<ChannelKind>,
    bans: &Vec<ChannelBanResponse>,
    public_key: &str,
) -> (r: Table<String, ()>)
    ensures
        r.wf(),
        forall|c: Seq<char>| #[trigger]
            r@.dom().contains(c) <==> heard_first(channels@, bans@, public_key@, c),
{
    let mut r: Table<String, ()> = Table::new();
    let mut i: usize = 0;
    while i < channels.len()
        invariant
            i <= channels@.len(),
            r.wf(),
            forall|c: Seq<char>| #[trigger]
                r@.dom().contains(c) <==> exists|k: int|
                    0 <= k < i && (#[trigger] channels@[k]).id@ == c && heard_by(
                        channels@[k],
                        bans@,
                        public_key@,
                    ),
        decreases channels@.len() - i,
    {
        let c = &channels[i];
        if !c.is_category && !crate::hub::moderation::is_channel_banned(
            bans,
            c.id.as_str(),
            public_key,
        ) {
            r.insert(c.id.clone(), ());
        }
        i = i + 1;
    }
    r
}

/// Whether the token opens a connection: it is that of a session, and its key stands.
pub fn ws_handler(session_key: Option<String>, revoked: bool) -> (r: Result<String, HubError>)
    ensures
        match session_key {
            None => refused(r, hub_refusal(401, "Invalid token"@)),
            Some(k) => if revoked {
                refused(r, hub_refusal(401, "Key has been revoked"@))
            } else {
                r == Ok::<String, HubError>(k)
            },
        },
{
    match session_key {
        None => Err(refuse(401, "Invalid token")),
        Some(k) => if revoked {
            Err(refuse(401, "Key has been revoked"))
        } else {
            Ok(k)
        },
    }
}

/// What an action sends, as far as it greets or tells of a shared screen.
pub ghost enum Sent {
    Hello(int),
    Started {
        channel: Seq<char>,
        stream: Seq<char>,
        sharer: Seq<char>,
        kind: Seq<char>,
        mime: Seq<char>,
        has_audio: bool,
    },
    Header { channel: Seq<char>, stream: Seq<char>, sharer: Seq<char>, seq: int, is_init: bool },
    Bytes(Seq<u8>),
    Other,
}

/// What an action sends, as far as it greets or tells of a shared screen.
pub open spec fn sent(a: Action) -> Sent {
    match a {
        Action::Hello(n) => Sent::Hello(n as int),
        Action::SendBinary(b) => Sent::Bytes(b@),
        Action::Send(m) => match m {
            WsServerMessage::ScreenShareStarted {
                channel_id,
                stream_id,
                sharer_pubkey,
                kind,
                mime,
                has_audio,
            } => Sent::Started {
                channel: channel_id@,
                stream: stream_id@,
                sharer: sharer_pubkey@,
                kind: kind@,
                mime: mime@,
                has_audio,
            },
            WsServerMessage::ScreenShareChunkOut {
                channel_id,
                stream_id,
                sharer_pubkey,
                seq,
                is_init,
            } => Sent::Header {
                channel: channel_id@,
                stream: stream_id@,
                sharer: sharer_pubkey@,
                seq: seq as int,
                is_init,
            },
            _ => Sent::Other,
        },
        _ => Sent::Other,
    }
}

/// What all actions send, in order.
pub open spec fn all_sent(a: Seq<Action>) -> Seq<Sent> {
    a.map_values(|x: Action| sent(x))
}

/// What a client is told of a stream that is under way: that it has started, and its first
/// chunk where there is one.
pub open spec fn stream_frames(k: (Seq<char>, Seq<char>), m: ScreenStreamMeta) -> Seq<Sent> {
    let started = Sent::Started {
        channel: k.0,
        stream: k.1,
        sharer: m.sharer_pubkey@,
        kind: m.kind@,
        mime: m.mime@,
        has_audio: m.has_audio,
    };
    match m.init_chunk {
        Some(b) => seq![
            started,
            Sent::Header {
                channel: k.0,
                stream: k.1,
                sharer: m.sharer_pubkey@,
                seq: 0,
                is_init: true,
            },
            Sent::Bytes(b@),
        ],
        None => seq![started],
    }
}

/// What a client is told of the streams of a channel, of those only that began before the
/// given time where one is given.
pub open spec fn channel_frames(
    keys: Seq<(Seq<char>, Seq<char>)>,
    s: Map<(Seq<char>, Seq<char>), ScreenStreamMeta>,
    channel: Seq<char>,
    before: Option<u64>,
) -> Seq<Sent>
    decreases keys.len(),
{
    if keys.len() == 0 {
        Seq::empty()
    } else {
        let k = keys.last();
        let rest = channel_frames(keys.drop_last(), s, channel, before);
        if k.0 == channel && (before is None || s[k].started_at < before->0) {
            rest + stream_frames(k, s[k])
        } else {
            rest
        }
    }
}

/// What a client is told of the streams of several channels.
pub open spec fn channels_frames(
    keys: Seq<(Seq<char>, Seq<char>)>,
    s: Map<(Seq<char>, Seq<char>), ScreenStreamMeta>,
    channels: Seq<Seq<char>>,
    before: Option<u64>,
) -> Seq<Sent>
    decreases channels.len(),
{
    if channels.len() == 0 {
        Seq::empty()
    } else {
        channels_frames(keys, s, channels.drop_last(), before) + channel_frames(
            keys,
            s,
            channels.last(),
            before,
        )
    }
}

fn copy_bytes(b: &Vec<u8>) -> (r: Vec<u8>)
    ensures
        r@ == b@,
{
    let mut r: Vec<u8> = Vec::new();
    let mut i: usize = 0;
    while i < b.len()
        invariant
            i <= b@.len(),
            r@ == b@.take(i as int),
        decreases b@.len() - i,
    {
        assert(b@.take(i as int).push(b@[i as int]) =~= b@.take(i as int + 1));
        r.push(b[i]);
        i = i + 1;
    }
    assert(b@.take(b@.len() as int) =~= b@);
    r
}

/// Tells of the streams of a channel.
fn push_shares(
    shares: &Table<Pair, ScreenStreamMeta>,
    channel_id: &str,
    before: Option<u64>,
    out: &mut Vec<Action>,
)
    requires
        shares.wf(),
    ensures
        all_sent(final(out)@) == all_sent(old(out)@) + channel_frames(
            shares.keys(),
            shares@,
            channel_id@,
            before,
        ),
{
    let ghost start = all_sent(out@);
    let ghost keys = shares.keys();
    let mut i: usize = 0;
    assert(keys.take(0) =~= Seq::empty());
    assert(start + Seq::<Sent>::empty() =~= start);
    while i < shares.len()
        invariant
            shares.wf(),
            keys == shares.keys(),
            i <= keys.len(),
            all_sent(out@) == start + channel_frames(
                keys.take(i as int),
                shares@,
                channel_id@,
                before,
            ),
        decreases keys.len() - i,
    {
        let k = shares.key_at(i);
        let m = shares.value_at(i);
        let ghost so_far = all_sent(out@);
        assert(keys.take(i as int + 1).drop_last() =~= keys.take(i as int));
        let early = match before {
            Some(t) => m.started_at < t,
            None => true,
        };
        if same(k.first.as_str(), channel_id) && early {
            out.push(
                Action::Send(
                    WsServerMessage::ScreenShareStarted {
                        channel_id: k.first.clone(),
                        stream_id: k.second.clone(),
                        sharer_pubkey: m.sharer_pubkey.clone(),
                        kind: m.kind.clone(),
                        mime: m.mime.clone(),
                        has_audio: m.has_audio,
                    },
                ),
            );
            match &m.init_chunk {
                Some(b) => {
                    out.push(
                        Action::Send(
                            WsServerMessage::ScreenShareChunkOut {
                                channel_id: k.first.clone(),
                                stream_id: k.second.clone(),
                                sharer_pubkey: m.sharer_pubkey.clone(),
                                seq: 0,
                                is_init: true,
                            },
                        ),
                    );
                    out.push(Action::SendBinary(copy_bytes(b)));
                },
                None => {},
            }
            proof {
                assert(all_sent(out@) =~= so_far + stream_frames(k@, *m));
                assert(start + channel_frames(keys.take(i as int), shares@, channel_id@, before)
                    + stream_frames(k@, *m) =~= start + (channel_frames(
                    keys.take(i as int),
                    shares@,
                    channel_id@,
                    before,
                ) + stream_frames(k@, *m)));
            }
        }
        i = i + 1;
    }
    assert(keys.take(keys.len() as int) =~= keys);
}

/// Opens a connection: the user is online, a bot can be reached, and the client is greeted and
/// told of the streams in its channels that began before it started to listen.
pub fn connect(
    live: &mut Live,
    public_key: &str,
    is_bot: bool,
    conversations: Vec<String>,
    subscribed: Table<String, ()>,
    live_seq: i64,
    listening_since: u64,
) -> (r: (Connection, Vec<Action>))
    requires
        old(live).wf(),
        subscribed.wf(),
    ensures
        final(live).wf(),
        final(live).voice == old(live).voice,
        final(live).shares == old(live).shares,
        final(live).online@ == old(live).online@.insert(public_key@, ()),
        final(live).bots@ == if is_bot {
            old(live).bots@.insert(public_key@, ())
        } else {
            old(live).bots@
        },
        r.0.wf(),
        r.0.public_key@ == public_key@,
        r.0.is_bot == is_bot,
        r.0.subscribed == subscribed,
        r.0.conversations == conversations,
        r.0.voice_channel is None,
        r.0.pending_chunk is None,
        r.0.interactions@ == Map::<Seq<char>, u64>::empty(),
        !r.0.replaying,
        r.0.buffered@.len() == 0,
        all_sent(r.1@) == seq![Sent::Hello(live_seq as int)] + channels_frames(
            old(live).shares.keys(),
            old(live).shares@,
            subscribed.keys(),
            Some(listening_since),
        ),
{
    live.online.insert(public_key.to_owned(), ());
    if is_bot {
        live.bots.insert(public_key.to_owned(), ());
    }
    let mut out: Vec<Action> = Vec::new();
    out.push(Action::Hello(live_seq));
    let ghost keys = live.shares.keys();
    let ghost s = live.shares@;
    let ghost channels = subscribed.keys();
    let ghost hello = seq![Sent::Hello(live_seq as int)];
    let mut i: usize = 0;
    assert(channels.take(0) =~= Seq::empty());
    assert(all_sent(out@) =~= hello + Seq::<Sent>::empty());
    while i < subscribed.len()
        invariant
            live.shares.wf(),
            keys == live.shares.keys(),
            s == live.shares@,
            channels == subscribed.keys(),
            i <= channels.len(),
            all_sent(out@) == hello + channels_frames(
                keys,
                s,
                channels.take(i as int),
                Some(listening_since),
            ),
        decreases channels.len() - i,
    {
        let c = subscribed.key_at(i);
        push_shares(&live.shares, c.as_str(), Some(listening_since), &mut out);
        proof {
            assert(channels.take(i as int + 1).drop_last() =~= channels.take(i as int));
            assert(all_sent(out@) =~= hello + channels_frames(
                keys,
                s,
                channels.take(i as int + 1),
                Some(listening_since),
            ));
        }
        i = i + 1;
    }
    assert(channels.take(channels.len() as int) =~= channels);
    let c = Connection {
        public_key: public_key.to_owned(),
        is_bot,
        subscribed,
        conversations,
        voice_channel: None,
        pending_chunk: None,
        interactions: Table::new(),
        replaying: false,
        buffered: Vec::new(),
    };
    (c, out)
}

/// Whether the connection is to be sent the event: its channel is subscribed to, it is not the
/// user's own typing, and it is not a message that only someone else may see.
pub open spec fn deliverable(c: Connection, e: ChatEvent) -> bool {
    c.hears(e.channel()) && match e {
        ChatEvent::Typing { public_key, .. } => public_key@ != c.public_key@,
        ChatEvent::New { message, .. } => for_user(message, c.public_key@),
        ChatEvent::Edited { message, .. } => for_user(message, c.public_key@),
        _ => true,
    }
}

/// Whether the message of the event answers one that is for someone else.
pub open spec fn answered_is_hidden(e: ChatEvent, user: Seq<char>) -> bool {
    match e {
        ChatEvent::New { message, .. } => !sees_answered(message, user),
        ChatEvent::Edited { message, .. } => !sees_answered(message, user),
        _ => false,
    }
}

/// Whether the event is the same as another, but that its message shows nothing that is for
/// someone else.
pub open spec fn event_seen(r: ChatEvent, e: ChatEvent, user: Seq<char>) -> bool {
    match e {
        ChatEvent::New { channel_id, message } => if sees_answered(message, user) {
            r == e
        } else {
            r == (ChatEvent::New {
                channel_id,
                message: MessageResponse { reply_to: None, ..message },
            })
        },
        ChatEvent::Edited { channel_id, message } => if sees_answered(message, user) {
            r == e
        } else {
            r == (ChatEvent::Edited {
                channel_id,
                message: MessageResponse { reply_to: None, ..message },
            })
        },
        _ => r == e,
    }
}

/// The event as the user is shown it.
pub fn event_for(event: ChatEvent, viewer: &str) -> (r: ChatEvent)
    ensures
        event_seen(r, event, viewer@),
        !answered_is_hidden(r, viewer@),
        !answered_is_hidden(event, viewer@) ==> r == event,
{
    match event {
        ChatEvent::New { channel_id, message } => ChatEvent::New {
            channel_id,
            message: message_for(message, viewer),
        },
        ChatEvent::Edited { channel_id, message } => ChatEvent::Edited {
            channel_id,
            message: message_for(message, viewer),
        },
        other => other,
    }
}

/// Whether the user may see the message: it is for everyone, or for them.
pub open spec fn for_user(m: MessageResponse, user: Seq<char>) -> bool {
    match m.visible_to_pubkey {
        Some(v) => v@ == user,
        None => true,
    }
}

fn is_for_user(m: &MessageResponse, user: &str) -> (r: bool)
    ensures
        r == for_user(*m, user@),
{
    match &m.visible_to_pubkey {
        Some(v) => same(v.as_str(), user),
        None => true,
    }
}

impl Connection {
    /// What becomes of a frame for the client: sent now, or kept while events are replayed.
    fn frame(&mut self, json: String) -> (r: Option<String>)
        ensures
            *final(self) == (Connection { buffered: final(self).buffered, ..*old(self) }),
            old(self).replaying ==> r is None && final(self).buffered@ == old(self).buffered@.push(
                json,
            ),
            !old(self).replaying ==> r == Some(json) && final(self).buffered
                == old(self).buffered,
    {
        if self.replaying {
            self.buffered.push(json);
            None
        } else {
            Some(json)
        }
    }

    /// An event of a channel, with the frame that was made of it.
    pub fn on_chat_event(&mut self, event: &ChatEvent, json: String) -> (r: Option<String>)
        requires
            old(self).wf(),
        ensures
            final(self).wf(),
            *final(self) == (Connection { buffered: final(self).buffered, ..*old(self) }),
            if !deliverable(*old(self), *event) {
                r is None && final(self).buffered == old(self).buffered
            } else if old(self).replaying {
                r is None && final(self).buffered@ == old(self).buffered@.push(json)
            } else {
                r == Some(json) && final(self).buffered == old(self).buffered
            },
    {
        let channel = event.channel_id().to_owned();
        if !self.subscribed.contains(&channel) {
            return None;
        }
        match event {
            ChatEvent::Typing { public_key, .. } => {
                if same(public_key.as_str(), self.public_key.as_str()) {
                    return None;
                }
            },
            ChatEvent::New { message, .. } => {
                if !is_for_user(message, self.public_key.as_str()) {
                    return None;
                }
            },
            ChatEvent::Edited { message, .. } => {
                if !is_for_user(message, self.public_key.as_str()) {
                    return None;
                }
            },
            _ => {},
        }
        self.frame(json)
    }

    /// Whether the event is to be shown to the user without what its message answers.
    pub fn hides_answered(&self, event: &ChatEvent) -> (r: bool)
        ensures
            r == answered_is_hidden(*event, self.public_key@),
    {
        match event {
            ChatEvent::New { message, .. } => !may_see_answered(message, self.public_key.as_str()),
            ChatEvent::Edited { message, .. } => !may_see_answered(
                message,
                self.public_key.as_str(),
            ),
            _ => false,
        }
    }

    /// An event of a game in a channel, as the frame that was made of it.
    pub fn on_game_event(&mut self, channel_id: &str, json: String) -> (r: Option<String>)
        requires
            old(self).wf(),
        ensures
            final(self).wf(),
            *final(self) == (Connection { buffered: final(self).buffered, ..*old(self) }),
            if !old(self).hears(channel_id@) {
                r is None && final(self).buffered == old(self).buffered
            } else if old(self).replaying {
                r is None && final(self).buffered@ == old(self).buffered@.push(json)
            } else {
                r == Some(json) && final(self).buffered == old(self).buffered
            },
    {
        let channel = channel_id.to_owned();
        if !self.subscribed.contains(&channel) {
            return None;
        }
        self.frame(json)
    }

    /// A frame that was pushed to this bot alone.
    pub fn on_bot_push(&mut self, json: String) -> (r: Option<String>)
        ensures
            *final(self) == (Connection { buffered: final(self).buffered, ..*old(self) }),
            old(self).replaying ==> r is None && final(self).buffered@ == old(self).buffered@.push(
                json,
            ),
            !old(self).replaying ==> r == Some(json) && final(self).buffered
                == old(self).buffered,
    {
        self.frame(json)
    }

    /// The client subscribes to a channel: if it had not, it is told of the streams in it.
    pub fn on_subscribe(&mut self, live: &Live, channel_id: &str) -> (r: Vec<Action>)
        requires
            old(self).wf(),
            live.wf(),
        ensures
            final(self).wf(),
            *final(self) == (Connection { subscribed: final(self).subscribed, ..*old(self) }),
            final(self).subscribed@ == old(self).subscribed@.insert(channel_id@, ()),
            all_sent(r@) == if old(self).hears(channel_id@) {
                Seq::<Sent>::empty()
            } else {
                channel_frames(live.shares.keys(), live.shares@, channel_id@, None)
            },
    {
        let mut out: Vec<Action> = Vec::new();
        assert(all_sent(out@) =~= Seq::<Sent>::empty());
        let key = channel_id.to_owned();
        if self.subscribed.contains(&key) {
            self.subscribed.insert(key, ());
            return out;
        }
        self.subscribed.insert(key, ());
        push_shares(&live.shares, channel_id, None, &mut out);
        assert(all_sent(out@) =~= channel_frames(
            live.shares.keys(),
            live.shares@,
            channel_id@,
            None,
        ));
        out
    }

    /// The client no longer hears the channel.
    pub fn on_unsubscribe(&mut self, channel_id: &str)
        requires
            old(self).wf(),
        ensures
            final(self).wf(),
            *final(self) == (Connection { subscribed: final(self).subscribed, ..*old(self) }),
            final(self).subscribed@ == old(self).subscribed@.remove(channel_id@),
    {
        let key = channel_id.to_owned();
        self.subscribed.remove(&key);
    }

    /// The client joins a voice channel from a port.
    pub fn on_voice_join(
        &mut self,
        voice: &mut Voice,
        channel_id: &str,
        udp_port: u16,
        facts: &JoinFacts,
    ) -> (r: Vec<Action>)
        requires
            old(self).wf(),
            old(voice).wf(),
        ensures
            final(self).wf(),
            final(voice).wf(),
            *final(self) == (Connection { voice_channel: final(self).voice_channel, ..*old(self) }),
            match join_fault(*facts) {
                Some(m) => r@.len() == 1 && tells_error(r@[0], "voice_join"@, m)
                    && final(self).voice_channel == old(self).voice_channel && *final(voice)
                    == *old(voice),
                None => {
                    let me = old(self).public_key@;
                    &&& final(voice).ports() == old(voice).ports().insert(
                        (channel_id@, me),
                        udp_port,
                    )
                    &&& final(voice).behind() == old(voice).behind().insert(
                        udp_port as u64,
                        (channel_id@, me),
                    )
                    &&& opt_text(final(self).voice_channel) == Some(channel_id@)
                    &&& r@.len() == 3
                    &&& tells_joined(
                        r@[0],
                        channel_id@,
                        facts.hub_udp_port,
                        members_in(final(voice).members.keys(), channel_id@),
                        facts.names@,
                    )
                    &&& spreads_joined(r@[1], channel_id@, me, name_in(facts.names@, me))
                    &&& r@[2] matches Action::Publish(e) && concerns(
                        e,
                        "member.joined"@,
                        me,
                        None,
                        Some(channel_id@),
                    ) && one_member(
                        e.payload,
                        "display_name"@,
                        nullable_view(name_in(facts.names@, me)),
                    )
                },
            },
    {
        let mut out: Vec<Action> = Vec::new();
        if facts.voice_muted {
            out.push(error_frame("voice_join", "You are voice-muted on this hub.".to_owned()));
            return out;
        }
        if facts.min_talk_power > 0 && facts.priority < facts.min_talk_power {
            let mut m = concat3(
                "This channel requires role priority ",
                i64_text(facts.min_talk_power).as_str(),
                " to talk; you have ",
            );
            m.append(i64_text(facts.priority).as_str());
            m.append(".");
            out.push(error_frame("voice_join", m));
            return out;
        }
        voice.join(channel_id, self.public_key.as_str(), udp_port);
        self.voice_channel = Some(channel_id.to_owned());
        let participants = get_voice_participants(voice, channel_id, &facts.names);
        out.push(
            Action::Send(
                WsServerMessage::VoiceJoined {
                    channel_id: channel_id.to_owned(),
                    hub_udp_port: facts.hub_udp_port,
                    participants,
                },
            ),
        );
        let name = display_name(&facts.names, self.public_key.as_str());
        let mut members: Vec<JsonField> = Vec::new();
        members.push(field("display_name", nullable(&name)));
        out.push(
            Action::Voice(
                channel_id.to_owned(),
                WsServerMessage::VoiceParticipantJoined {
                    channel_id: channel_id.to_owned(),
                    participant: VoiceParticipantInfo {
                        public_key: self.public_key.clone(),
                        display_name: name,
                    },
                },
            ),
        );
        out.push(
            Action::Publish(
                HubEvent {
                    event_type: "member.joined".to_owned(),
                    actor: Some(self.public_key.clone()),
                    target: None,
                    channel_id: Some(channel_id.to_owned()),
                    payload: Payload::Object(members),
                },
            ),
        );
        out
    }

    /// The client leaves a voice channel.
    pub fn on_voice_leave(&mut self, voice: &mut Voice, channel_id: &str) -> (r: Vec<Action>)
        requires
            old(self).wf(),
            old(voice).wf(),
        ensures
            final(self).wf(),
            final(voice).wf(),
            *final(self) == (Connection { voice_channel: None, ..*old(self) }),
            left_voice(*final(voice), *old(voice), channel_id@, old(self).public_key@),
            r@.len() == 2,
            spreads_left(r@[0], channel_id@, old(self).public_key@),
            r@[1] matches Action::Publish(e) && concerns(
                e,
                "member.left"@,
                old(self).public_key@,
                None,
                Some(channel_id@),
            ) && empty_object(e.payload),
    {
        let mut out: Vec<Action> = Vec::new();
        out.push(leave_voice(voice, self.public_key.as_str(), channel_id));
        self.voice_channel = None;
        out.push(
            Action::Publish(
                HubEvent {
                    event_type: "member.left".to_owned(),
                    actor: Some(self.public_key.clone()),
                    target: None,
                    channel_id: Some(channel_id.to_owned()),
                    payload: Payload::Object(Vec::new()),
                },
            ),
        );
        out
    }

    /// The client speaks, or stops speaking.
    pub fn on_voice_speaking(&self, channel_id: &str, speaking: bool) -> (r: Action)
        ensures
            r matches Action::Voice(c, m) && c@ == channel_id@ && (m
                matches WsServerMessage::VoiceParticipantSpeaking {
                channel_id: mc,
                public_key,
                speaking: s,
            } && mc@ == channel_id@ && public_key@ == self.public_key@ && s == speaking),
    {
        Action::Voice(
            channel_id.to_owned(),
            WsServerMessage::VoiceParticipantSpeaking {
                channel_id: channel_id.to_owned(),
                public_key: self.public_key.clone(),
                speaking,
            },
        )
    }

    /// The client types in a channel, or stops.
    pub fn on_typing(&self, channel_id: &str, typing: bool, name: &Option<String>) -> (r: Action)
        ensures
            r matches Action::Chat(e, m) && (e matches ChatEvent::Typing {
                channel_id: c,
                public_key,
                display_name,
                typing: t,
            } && c@ == channel_id@ && public_key@ == self.public_key@ && opt_text(display_name)
                == opt_text(*name) && t == typing) && (m matches WsServerMessage::Typing {
                channel_id: c,
                public_key,
                display_name,
                typing: t,
            } && c@ == channel_id@ && public_key@ == self.public_key@ && opt_text(display_name)
                == opt_text(*name) && t == typing),
    {
        Action::Chat(
            ChatEvent::Typing {
                channel_id: channel_id.to_owned(),
                public_key: self.public_key.clone(),
                display_name: name.clone(),
                typing,
            },
            WsServerMessage::Typing {
                channel_id: channel_id.to_owned(),
                public_key: self.public_key.clone(),
                display_name: name.clone(),
                typing,
            },
        )
    }

    /// The client types in a conversation, or stops.
    pub fn on_dm_typing(
        &self,
        conversation_id: &str,
        typing: bool,
        name: &Option<String>,
    ) -> (r: Action)
        ensures
            r matches Action::Dm(e) && (e matches DmEvent::Typing {
                conversation_id: c,
                sender,
                sender_name,
                typing: t,
            } && c@ == conversation_id@ && sender@ == self.public_key@ && opt_text(sender_name)
                == opt_text(*name) && t == typing),
    {
        Action::Dm(
            DmEvent::Typing {
                conversation_id: conversation_id.to_owned(),
                sender: self.public_key.clone(),
                sender_name: name.clone(),
                typing,
            },
        )
    }

    /// Whether someone else shares in the channel.
    pub open spec fn other_shares(
        self,
        s: Map<(Seq<char>, Seq<char>), ScreenStreamMeta>,
        channel: Seq<char>,
    ) -> bool {
        exists|stream: Seq<char>| #[trigger]
            s.dom().contains((channel, stream)) && s[(channel, stream)].sharer_pubkey@
                != self.public_key@
    }

    fn another_sharer(&self, shares: &Table<Pair, ScreenStreamMeta>, channel_id: &str) -> (r: bool)
        requires
            shares.wf(),
        ensures
            r == self.other_shares(shares@, channel_id@),
    {
        let ghost keys = shares.keys();
        proof {
            shares.lemma_keys();
        }
        let mut i: usize = 0;
        while i < shares.len()
            invariant
                shares.wf(),
                keys == shares.keys(),
                i <= keys.len(),
                forall|k: (Seq<char>, Seq<char>)| #[trigger]
                    keys.contains(k) <==> shares@.dom().contains(k),
                forall|k: int|
                    0 <= k < i ==> (#[trigger] keys[k]).0 != channel_id@
                        || shares@[keys[k]].sharer_pubkey@ == self.public_key@,
            decreases keys.len() - i,
        {
            let k = shares.key_at(i);
            let m = shares.value_at(i);
            if same(k.first.as_str(), channel_id) && !same(
                m.sharer_pubkey.as_str(),
                self.public_key.as_str(),
            ) {
                assert(keys[i as int] == (channel_id@, k.second@));
                assert(shares@.dom().contains((channel_id@, k.second@)));
                return true;
            }
            i = i + 1;
        }
        proof {
            if self.other_shares(shares@, channel_id@) {
                let stream = choose|stream: Seq<char>| #[trigger]
                    shares@.dom().contains((channel_id@, stream)) && shares@[(
                        channel_id@,
                        stream,
                    )].sharer_pubkey@ != self.public_key@;
                assert(keys.contains((channel_id@, stream)));
                let k = choose|k: int| 0 <= k < keys.len() && keys[k] == (channel_id@, stream);
                assert(keys[k].0 == channel_id@);
            }
        }
        false
    }

    /// The client starts to share a screen. In a channel in which someone else shares it may
    /// not.
    pub fn on_share_start(
        &self,
        shares: &mut Table<Pair, ScreenStreamMeta>,
        channel_id: &str,
        stream_id: &str,
        kind: &str,
        mime: &str,
        has_audio: bool,
        now: u64,
    ) -> (r: Action)
        requires
            old(shares).wf(),
        ensures
            final(shares).wf(),
            if self.other_shares(old(shares)@, channel_id@) {
                &&& tells_error(
                    r,
                    "screen_share"@,
                    "Someone else is already sharing in this channel."@,
                )
                &&& *final(shares) == *old(shares)
            } else {
                &&& exists|m: ScreenStreamMeta|
                    final(shares)@ == #[trigger] old(shares)@.insert((channel_id@, stream_id@), m)
                        && m.kind@ == kind@ && m.mime@ == mime@ && m.has_audio == has_audio
                        && m.sharer_pubkey@ == self.public_key@ && m.init_chunk is None
                        && m.started_at == now
                &&& spreads_started(
                    r,
                    channel_id@,
                    stream_id@,
                    self.public_key@,
                    kind@,
                    mime@,
                    has_audio,
                )
            },
    {
        if self.another_sharer(shares, channel_id) {
            return error_frame(
                "screen_share",
                "Someone else is already sharing in this channel.".to_owned(),
            );
        }
        let meta = ScreenStreamMeta {
            kind: kind.to_owned(),
            mime: mime.to_owned(),
            has_audio,
            sharer_pubkey: self.public_key.clone(),
            init_chunk: None,
            started_at: now,
        };
        shares.insert(pair(channel_id, stream_id), meta);
        Action::Chat(
            ChatEvent::ScreenShareStarted {
                channel_id: channel_id.to_owned(),
                stream_id: stream_id.to_owned(),
                sharer_pubkey: self.public_key.clone(),
                kind: kind.to_owned(),
                mime: mime.to_owned(),
                has_audio,
            },
            WsServerMessage::ScreenShareStarted {
                channel_id: channel_id.to_owned(),
                stream_id: stream_id.to_owned(),
                sharer_pubkey: self.public_key.clone(),
                kind: kind.to_owned(),
                mime: mime.to_owned(),
                has_audio,
            },
        )
    }

    /// The client announces a chunk; the bytes come next. An older announcement is forgotten.
    pub fn on_share_chunk(&mut self, channel_id: &str, stream_id: &str, seq: u32, is_init: bool)
        ensures
            *final(self) == (Connection { pending_chunk: final(self).pending_chunk, ..*old(self) }),
            final(self).pending_chunk matches Some(p) && p.channel_id@ == channel_id@
                && p.stream_id@ == stream_id@ && p.seq == seq && p.is_init == is_init,
    {
        self.pending_chunk = Some(
            PendingChunk {
                channel_id: channel_id.to_owned(),
                stream_id: stream_id.to_owned(),
                seq,
                is_init,
            },
        );
    }

    /// The client stops sharing a stream.
    pub fn on_share_stop(
        &self,
        shares: &mut Table<Pair, ScreenStreamMeta>,
        channel_id: &str,
        stream_id: &str,
    ) -> (r: Action)
        requires
            old(shares).wf(),
        ensures
            final(shares).wf(),
            final(shares)@ == old(shares)@.remove((channel_id@, stream_id@)),
            r matches Action::Chat(e, m) && (e matches ChatEvent::ScreenShareStopped {
                channel_id: c,
                stream_id: s,
                sharer_pubkey,
            } && c@ == channel_id@ && s@ == stream_id@ && sharer_pubkey@ == self.public_key@) && (m
                matches WsServerMessage::ScreenShareStopped {
                channel_id: c,
                stream_id: s,
                sharer_pubkey,
            } && c@ == channel_id@ && s@ == stream_id@ && sharer_pubkey@ == self.public_key@),
    {
        shares.remove(&pair(channel_id, stream_id));
        Action::Chat(
            ChatEvent::ScreenShareStopped {
                channel_id: channel_id.to_owned(),
                stream_id: stream_id.to_owned(),
                sharer_pubkey: self.public_key.clone(),
            },
            WsServerMessage::ScreenShareStopped {
                channel_id: channel_id.to_owned(),
                stream_id: stream_id.to_owned(),
                sharer_pubkey: self.public_key.clone(),
            },
        )
    }

    /// Bytes from the client. Those of an announced chunk go on to the others, and a first
    /// chunk is kept with its stream; bytes that nothing announced are dropped.
    pub fn on_binary(
        &mut self,
        shares: &mut Table<Pair, ScreenStreamMeta>,
        data: Vec<u8>,
    ) -> (r: Option<Action>)
        requires
            old(shares).wf(),
        ensures
            final(shares).wf(),
            *final(self) == (Connection { pending_chunk: None, ..*old(self) }),
            match old(self).pending_chunk {
                None => r is None && *final(shares) == *old(shares),
                Some(p) => {
                    let k = (p.channel_id@, p.stream_id@);
                    &&& r matches Some(Action::Chunk(e)) && e.channel_id@ == p.channel_id@
                        && e.stream_id@ == p.stream_id@ && e.sharer_pubkey@ == old(self).public_key@
                        && e.seq == p.seq && e.is_init == p.is_init && e.data@ == data@
                    &&& if p.is_init && old(shares)@.dom().contains(k) {
                        exists|m: ScreenStreamMeta|
                            final(shares)@ == #[trigger] old(shares)@.insert(k, m) && (
                            m.init_chunk matches Some(b) && b@ == data@) && same_stream(
                                m,
                                old(shares)@[k],
                            )
                    } else {
                        final(shares)@ == old(shares)@
                    }
                },
            },
    {
        match self.pending_chunk.take() {
            None => None,
            Some(p) => {
                let key = pair(p.channel_id.as_str(), p.stream_id.as_str());
                if p.is_init {
                    let updated: Option<ScreenStreamMeta> = match shares.get(&key) {
                        Some(m) => Some(
                            ScreenStreamMeta {
                                kind: m.kind.clone(),
                                mime: m.mime.clone(),
                                has_audio: m.has_audio,
                                sharer_pubkey: m.sharer_pubkey.clone(),
                                init_chunk: Some(copy_bytes(&data)),
                                started_at: m.started_at,
                            },
                        ),
                        None => None,
                    };
                    match updated {
                        Some(m) => {
                            shares.insert(key, m);
                        },
                        None => {},
                    }
                }
                Some(
                    Action::Chunk(
                        ScreenChunkEvent {
                            channel_id: p.channel_id,
                            stream_id: p.stream_id,
                            sharer_pubkey: self.public_key.clone(),
                            seq: p.seq,
                            is_init: p.is_init,
                            data,
                        },
                    ),
                )
            },
        }
    }

    /// Whether the client may have missed events replayed. Only bots may; while they are,
    /// what happens is kept back.
    pub fn begin_resume(&mut self) -> (r: bool)
        ensures
            r == old(self).is_bot,
            *final(self) == if old(self).is_bot {
                Connection { replaying: true, ..*old(self) }
            } else {
                *old(self)
            },
    {
        if !self.is_bot {
            return false;
        }
        self.replaying = true;
        true
    }

    /// The replay is over: what was kept back is to be sent, in the order in which it came.
    pub fn end_resume(&mut self) -> (r: Vec<String>)
        ensures
            r == old(self).buffered,
            final(self).buffered@.len() == 0,
            *final(self) == (Connection {
                replaying: false,
                buffered: final(self).buffered,
                ..*old(self)
            }),
    {
        self.replaying = false;
        let mut kept: Vec<String> = Vec::new();
        std::mem::swap(&mut kept, &mut self.buffered);
        kept
    }

    /// The client uses a component of a message: at most once in three seconds each.
    pub fn on_interaction(
        &mut self,
        message_id: String,
        custom_id: String,
        values: Vec<String>,
        now: u64,
    ) -> (r: Action)
        requires
            old(self).wf(),
        ensures
            final(self).wf(),
            *final(self) == (Connection { interactions: final(self).interactions, ..*old(self) }),
            if too_soon(old(self).interactions@, custom_id@, now) {
                &&& tells_error(
                    r,
                    "component_interaction"@,
                    "Please wait before interacting again."@,
                )
                &&& final(self).interactions == old(self).interactions
            } else {
                &&& r == (Action::Dispatch { message_id, custom_id, values })
                &&& remembers(
                    final(self).interactions@,
                    old(self).interactions@.insert(custom_id@, now),
                    now,
                    old(self).interactions.keys().len() + if old(self).interactions@.dom().contains(
                        custom_id@,
                    ) {
                        0int
                    } else {
                        1int
                    } > 500,
                )
            },
    {
        let soon = match self.interactions.get(&custom_id) {
            Some(last) => *last > now || now - *last < 3000,
            None => false,
        };
        if soon {
            return error_frame(
                "component_interaction",
                "Please wait before interacting again.".to_owned(),
            );
        }
        self.interactions.insert(custom_id.clone(), now);
        let ghost noted = self.interactions@;
        if self.interactions.len() > 500 {
            let mut i: usize = 0;
            while i < self.interactions.len()
                invariant
                    self.wf(),
                    i <= self.interactions.keys().len(),
                    forall|k: Seq<char>| #[trigger]
                        self.interactions@.dom().contains(k) ==> noted.dom().contains(k)
                            && self.interactions@[k] == noted[k],
                    forall|k: Seq<char>| #[trigger]
                        noted.dom().contains(k) && now - noted[k] < 60000
                            ==> self.interactions@.dom().contains(k),
                    forall|n: int|
                        0 <= n < i ==> now - self.interactions@[#[trigger] self.interactions.keys()[n]]
                            < 60000,
                    *self == (Connection { interactions: self.interactions, ..*old(self) }),
                decreases self.interactions.keys().len() - i,
            {
                let t: u64 = *self.interactions.value_at(i);
                let ghost keys = self.interactions.keys();
                proof {
                    self.interactions.lemma_keys();
                    assert(noted.dom().contains(keys[i as int]));
                }
                if t > now || now - t < 60000 {
                    i = i + 1;
                } else {
                    self.interactions.remove_at(i);
                    proof {
                        assert forall|n: int| 0 <= n < i implies now - self.interactions@[
                            #[trigger] self.interactions.keys()[n]
                        ] < 60000 by {
                            assert(self.interactions.keys()[n] == keys[n]);
                            assert(keys[n] != keys[i as int]);
                        }
                    }
                }
            }
            proof {
                self.interactions.lemma_keys();
                assert forall|k: Seq<char>| #[trigger]
                    self.interactions@.dom().contains(k) implies now - noted[k] < 60000 by {
                    assert(self.interactions.keys().contains(k));
                    let n = choose|n: int|
                        0 <= n < self.interactions.keys().len() && self.interactions.keys()[n] == k;
                    assert(self.interactions.keys()[n] == k);
                }
            }
        }
        Action::Dispatch { message_id, custom_id, values }
    }

    /// Whether the client is told of something in voice: of its own channel only, and not of
    /// what it did itself.
    pub fn on_voice_event(&self, channel_id: &str, message: &WsServerMessage) -> (r: bool)
        ensures
            r == (opt_text(self.voice_channel) == Some(channel_id@) && !by_user(
                *message,
                self.public_key@,
            )),
    {
        match &self.voice_channel {
            Some(c) => {
                if !same(c.as_str(), channel_id) {
                    return false;
                }
            },
            None => return false,
        }
        let own = match message {
            WsServerMessage::VoiceParticipantSpeaking { public_key, .. } => same(
                public_key.as_str(),
                self.public_key.as_str(),
            ),
            WsServerMessage::VoiceParticipantJoined { participant, .. } => same(
                participant.public_key.as_str(),
                self.public_key.as_str(),
            ),
            WsServerMessage::VoiceParticipantLeft { public_key, .. } => same(
                public_key.as_str(),
                self.public_key.as_str(),
            ),
            _ => false,
        };
        !own
    }

    /// What the client is told of something in a conversation: of its own conversations only,
    /// and not of what it did itself.
    pub fn on_dm(&self, event: DmEvent) -> (r: Option<WsServerMessage>)
        ensures
            if event.from() == self.public_key@ || !texts(self.conversations@).contains(
                event.conversation(),
            ) {
                r is None
            } else {
                match event {
                    DmEvent::Message { conversation_id, sender, sender_name, content, timestamp } => r
                        == Some(
                        WsServerMessage::DirectMessage {
                            conversation_id,
                            sender,
                            sender_name,
                            content,
                            timestamp,
                        },
                    ),
                    DmEvent::Typing { conversation_id, sender, sender_name, typing } => r == Some(
                        WsServerMessage::DmTyping { conversation_id, sender, sender_name, typing },
                    ),
                }
            },
    {
        if same(event.sender(), self.public_key.as_str()) {
            return None;
        }
        if !contains_text(&self.conversations, event.conversation_id()) {
            return None;
        }
        match event {
            DmEvent::Message { conversation_id, sender, sender_name, content, timestamp } => Some(
                WsServerMessage::DirectMessage {
                    conversation_id,
                    sender,
                    sender_name,
                    content,
                    timestamp,
                },
            ),
            DmEvent::Typing { conversation_id, sender, sender_name, typing } => Some(
                WsServerMessage::DmTyping { conversation_id, sender, sender_name, typing },
            ),
        }
    }

    /// What the client is sent of a chunk: its header and its bytes, where it hears the channel
    /// and is not the sharer.
    pub fn on_chunk(&self, event: ScreenChunkEvent) -> (r: Option<(WsServerMessage, Vec<u8>)>)
        ensures
            if event.sharer_pubkey@ != self.public_key@ && self.hears(event.channel_id@) {
                r == Some(
                    (
                        WsServerMessage::ScreenShareChunkOut {
                            channel_id: event.channel_id,
                            stream_id: event.stream_id,
                            sharer_pubkey: event.sharer_pubkey,
                            seq: event.seq,
                            is_init: event.is_init,
                        },
                        event.data,
                    ),
                )
            } else {
                r is None
            },
    {
        if same(event.sharer_pubkey.as_str(), self.public_key.as_str()) {
            return None;
        }
        if !self.subscribed.contains(&event.channel_id) {
            return None;
        }
        Some(
            (
                WsServerMessage::ScreenShareChunkOut {
                    channel_id: event.channel_id,
                    stream_id: event.stream_id,
                    sharer_pubkey: event.sharer_pubkey,
                    seq: event.seq,
                    is_init: event.is_init,
                },
                event.data,
            ),
        )
    }

    /// The connection is over: the user is out of voice, shares nothing, and is offline.
    pub fn disconnect(self, live: &mut Live) -> (r: Option<Action>)
        requires
            old(live).wf(),
        ensures
            final(live).wf(),
            match self.voice_channel {
                Some(c) => left_voice(
                    final(live).voice,
                    old(live).voice,
                    c@,
                    self.public_key@,
                ) && (r matches Some(a) && spreads_left(a, c@, self.public_key@)),
                None => final(live).voice == old(live).voice && r is None,
            },
            without_sharer(final(live).streams(), old(live).streams(), self.public_key@),
            final(live).bots@ == if self.is_bot {
                old(live).bots@.remove(self.public_key@)
            } else {
                old(live).bots@
            },
            final(live).online@ == old(live).online@.remove(self.public_key@),
    {
        let told: Option<Action> = match &self.voice_channel {
            Some(c) => Some(leave_voice(&mut live.voice, self.public_key.as_str(), c.as_str())),
            None => None,
        };
        let ghost before = live.streams();
        let mut i: usize = 0;
        while i < live.shares.len()
            invariant
                live.wf(),
                i <= live.shares.keys().len(),
                before == old(live).streams(),
                live.online == old(live).online,
                live.bots == old(live).bots,
                match self.voice_channel {
                    Some(c) => left_voice(live.voice, old(live).voice, c@, self.public_key@),
                    None => live.voice == old(live).voice,
                },
                forall|k: (Seq<char>, Seq<char>)| #[trigger]
                    live.streams().dom().contains(k) ==> before.dom().contains(k)
                        && live.streams()[k] == before[k],
                forall|k: (Seq<char>, Seq<char>)| #[trigger]
                    before.dom().contains(k) && before[k].sharer_pubkey@ != self.public_key@
                        ==> live.streams().dom().contains(k),
                forall|n: int|
                    0 <= n < i ==> live.streams()[#[trigger] live.shares.keys()[n]].sharer_pubkey@
                        != self.public_key@,
            decreases live.shares.keys().len() - i,
        {
            let m = live.shares.value_at(i);
            if same(m.sharer_pubkey.as_str(), self.public_key.as_str()) {
                let ghost keys = live.shares.keys();
                let ghost s = live.streams();
                proof {
                    live.shares.lemma_keys();
                    assert(keys.contains(keys[i as int]));
                }
                live.shares.remove_at(i);
                proof {
                    assert forall|n: int| 0 <= n < i implies live.streams()[
                        #[trigger] live.shares.keys()[n]
                    ].sharer_pubkey@ != self.public_key@ by {
                        assert(live.shares.keys()[n] == keys[n]);
                        assert(keys[n] != keys[i as int]);
                    }
                }
            } else {
                i = i + 1;
            }
        }
        proof {
            live.shares.lemma_keys();
            assert forall|k: (Seq<char>, Seq<char>)| #[trigger]
                live.streams().dom().contains(k) implies live.streams()[k].sharer_pubkey@
                != self.public_key@ by {
                assert(live.shares.keys().contains(k));
                let n = choose|n: int|
                    0 <= n < live.shares.keys().len() && live.shares.keys()[n] == k;
                assert(live.shares.keys()[n] == k);
            }
        }
        if self.is_bot {
            live.bots.remove(&self.public_key);
        }
        live.online.remove(&self.public_key);
        told
    }
}

/// What is known when a client asks to join a voice channel: whether they are muted, what the
/// channel asks, the priority of the client, the port of the hub, and the names of users.
pub struct JoinFacts {
    pub voice_muted: bool,
    pub min_talk_power: i64,
    pub priority: i64,
    pub hub_udp_port: u16,
    pub names: Vec<UserName>,
}

/// Why a client may not join, where they may not.
pub open spec fn join_fault(f: JoinFacts) -> Option<Seq<char>> {
    if f.voice_muted {
        Some("You are voice-muted on this hub."@)
    } else if f.min_talk_power > 0 && f.priority < f.min_talk_power {
        Some(
            "This channel requires role priority "@ + signed_decimal(f.min_talk_power as int)
                + " to talk; you have "@ + signed_decimal(f.priority as int) + "."@,
        )
    } else {
        None
    }
}

/// Whether the action tells the client of an error.
pub open spec fn tells_error(a: Action, context: Seq<char>, message: Seq<char>) -> bool {
    a matches Action::Send(WsServerMessage::Error { context: c, message: m }) && c@ == context && m@
        == message
}

fn error_frame(context: &str, message: String) -> (a: Action)
    ensures
        tells_error(a, context@, message@),
{
    Action::Send(WsServerMessage::Error { context: context.to_owned(), message })
}

/// Whether the action tells the client that it is in voice, and with whom.
pub open spec fn tells_joined(
    a: Action,
    channel: Seq<char>,
    port: u16,
    users: Seq<Seq<char>>,
    names: Seq<UserName>,
) -> bool {
    a matches Action::Send(
        WsServerMessage::VoiceJoined { channel_id, hub_udp_port, participants },
    ) && channel_id@ == channel && hub_udp_port == port && introduces(participants@, users, names)
}

/// Whether the action tells the channel that someone came.
pub open spec fn spreads_joined(
    a: Action,
    channel: Seq<char>,
    user: Seq<char>,
    name: Option<Seq<char>>,
) -> bool {
    a matches Action::Voice(c, m) && c@ == channel && (m
        matches WsServerMessage::VoiceParticipantJoined { channel_id, participant } && channel_id@
        == channel && participant.public_key@ == user && opt_text(participant.display_name)
        == name)
}

/// Whether the action tells the channel that someone left.
pub open spec fn spreads_left(a: Action, channel: Seq<char>, user: Seq<char>) -> bool {
    a matches Action::Voice(c, m) && c@ == channel && (m
        matches WsServerMessage::VoiceParticipantLeft { channel_id, public_key } && channel_id@
        == channel && public_key@ == user)
}

/// Whether the action tells the channel that a screen is shared.
pub open spec fn spreads_started(
    a: Action,
    channel: Seq<char>,
    stream: Seq<char>,
    sharer: Seq<char>,
    k: Seq<char>,
    mi: Seq<char>,
    audio: bool,
) -> bool {
    a matches Action::Chat(e, m) && (e matches ChatEvent::ScreenShareStarted {
        channel_id,
        stream_id,
        sharer_pubkey,
        kind,
        mime,
        has_audio,
    } && channel_id@ == channel && stream_id@ == stream && sharer_pubkey@ == sharer && kind@ == k
        && mime@ == mi && has_audio == audio) && (m matches WsServerMessage::ScreenShareStarted {
        channel_id,
        stream_id,
        sharer_pubkey,
        kind,
        mime,
        has_audio,
    } && channel_id@ == channel && stream_id@ == stream && sharer_pubkey@ == sharer && kind@ == k
        && mime@ == mi && has_audio == audio)
}

/// Whether the two are the same stream, but for the first chunk.
pub open spec fn same_stream(a: ScreenStreamMeta, b: ScreenStreamMeta) -> bool {
    &&& a.kind@ == b.kind@
    &&& a.mime@ == b.mime@
    &&& a.has_audio == b.has_audio
    &&& a.sharer_pubkey@ == b.sharer_pubkey@
    &&& a.started_at == b.started_at
}

/// Whether someone did this themself.
pub open spec fn by_user(m: WsServerMessage, user: Seq<char>) -> bool {
    match m {
        WsServerMessage::VoiceParticipantSpeaking { public_key, .. } => public_key@ == user,
        WsServerMessage::VoiceParticipantJoined { participant, .. } => participant.public_key@
            == user,
        WsServerMessage::VoiceParticipantLeft { public_key, .. } => public_key@ == user,
        _ => false,
    }
}

/// Whether the user has left the channel, and nothing else has changed.
pub open spec fn left_voice(
    after: Voice,
    before: Voice,
    channel: Seq<char>,
    user: Seq<char>,
) -> bool {
    &&& after.ports() == before.ports().remove((channel, user))
    &&& after.behind() == if before.ports().dom().contains((channel, user)) {
        before.behind().remove(before.ports()[(channel, user)] as u64)
    } else {
        before.behind()
    }
}

/// Takes the user out of a voice channel, and tells the channel.
pub fn leave_voice(voice: &mut Voice, public_key: &str, channel_id: &str) -> (r: Action)
    requires
        old(voice).wf(),
    ensures
        final(voice).wf(),
        left_voice(*final(voice), *old(voice), channel_id@, public_key@),
        spreads_left(r, channel_id@, public_key@),
{
    voice.leave(channel_id, public_key);
    Action::Voice(
        channel_id.to_owned(),
        WsServerMessage::VoiceParticipantLeft {
            channel_id: channel_id.to_owned(),
            public_key: public_key.to_owned(),
        },
    )
}

/// Whether the streams are those of before, without the ones of the user.
pub open spec fn without_sharer(
    after: Map<(Seq<char>, Seq<char>), ScreenStreamMeta>,
    before: Map<(Seq<char>, Seq<char>), ScreenStreamMeta>,
    user: Seq<char>,
) -> bool {
    &&& forall|k: (Seq<char>, Seq<char>)| #[trigger]
        after.dom().contains(k) <==> before.dom().contains(k) && before[k].sharer_pubkey@ != user
    &&& forall|k: (Seq<char>, Seq<char>)| #[trigger] after.dom().contains(k) ==> after[k] == before[k]
}

/// Whether the component was used less than three seconds ago.
pub open spec fn too_soon(last: Map<Seq<char>, u64>, id: Seq<char>, now: u64) -> bool {
    last.dom().contains(id) && now - last[id] < 3000
}

/// Whether what was noted is remembered, and of it only what is of the last minute where it is
/// too much.
pub open spec fn remembers(
    after: Map<Seq<char>, u64>,
    noted: Map<Seq<char>, u64>,
    now: u64,
    too_much: bool,
) -> bool {
    &&& forall|k: Seq<char>| #[trigger]
        after.dom().contains(k) <==> noted.dom().contains(k) && (too_much ==> now - noted[k] < 60000)
    &&& forall|k: Seq<char>| #[trigger] after.dom().contains(k) ==> after[k] == noted[k]
}

/// Starting to share where no one else does keeps it at one sharer in each channel.
pub proof fn start_keeps_one_sharer(
    s: Map<(Seq<char>, Seq<char>), ScreenStreamMeta>,
    c: Connection,
    channel: Seq<char>,
    stream: Seq<char>,
    m: ScreenStreamMeta,
)
    requires
        one_sharer_each(s),
        !c.other_shares(s, channel),
        m.sharer_pubkey@ == c.public_key@,
    ensures
        one_sharer_each(s.insert((channel, stream), m)),
{
    let n = s.insert((channel, stream), m);
    assert forall|a: (Seq<char>, Seq<char>), b: (Seq<char>, Seq<char>)|
        #![trigger n.dom().contains(a), n.dom().contains(b)]
        n.dom().contains(a) && n.dom().contains(b) && a.0 == b.0 implies n[a].sharer_pubkey@
        == n[b].sharer_pubkey@ by {
        let k = (channel, stream);
        if a != k {
            assert(s.dom().contains(a));
            if a.0 == channel {
                assert(s.dom().contains((channel, a.1)));
            }
        }
        if b != k {
            assert(s.dom().contains(b));
            if b.0 == channel {
                assert(s.dom().contains((channel, b.1)));
            }
        }
    }
}

/// Stopping a stream, keeping its first chunk, and a disconnect keep it at one sharer in each
/// channel.
pub proof fn one_sharer_is_kept(
    s: Map<(Seq<char>, Seq<char>), ScreenStreamMeta>,
    k: (Seq<char>, Seq<char>),
    m: ScreenStreamMeta,
    rest: Map<(Seq<char>, Seq<char>), ScreenStreamMeta>,
    user: Seq<char>,
)
    requires
        one_sharer_each(s),
    ensures
        one_sharer_each(s.remove(k)),
        s.dom().contains(k) && same_stream(m, s[k]) ==> one_sharer_each(s.insert(k, m)),
        without_sharer(rest, s, user) ==> one_sharer_each(rest),
{
    let stopped = s.remove(k);
    assert forall|a: (Seq<char>, Seq<char>), b: (Seq<char>, Seq<char>)|
        #![trigger stopped.dom().contains(a), stopped.dom().contains(b)]
        stopped.dom().contains(a) && stopped.dom().contains(b) && a.0
            == b.0 implies stopped[a].sharer_pubkey@ == stopped[b].sharer_pubkey@ by {
        assert(s.dom().contains(a) && s.dom().contains(b));
    }
    if s.dom().contains(k) && same_stream(m, s[k]) {
        let kept = s.insert(k, m);
        assert forall|a: (Seq<char>, Seq<char>), b: (Seq<char>, Seq<char>)|
            #![trigger kept.dom().contains(a), kept.dom().contains(b)]
            kept.dom().contains(a) && kept.dom().contains(b) && a.0
                == b.0 implies kept[a].sharer_pubkey@ == kept[b].sharer_pubkey@ by {
            assert(s.dom().contains(a) && s.dom().contains(b));
        }
    }
    if without_sharer(rest, s, user) {
        assert forall|a: (Seq<char>, Seq<char>), b: (Seq<char>, Seq<char>)|
            #![trigger rest.dom().contains(a), rest.dom().contains(b)]
            rest.dom().contains(a) && rest.dom().contains(b) && a.0
                == b.0 implies rest[a].sharer_pubkey@ == rest[b].sharer_pubkey@ by {
            assert(s.dom().contains(a) && s.dom().contains(b));
        }
    }
}

/// Forgetting old interactions changes nothing of the limit: from then on a component is too
/// soon exactly where it would have been.
pub proof fn cleaning_up_keeps_the_limit(
    after: Map<Seq<char>, u64>,
    noted: Map<Seq<char>, u64>,
    id: Seq<char>,
    now: u64,
    too_much: bool,
    later: u64,
)
    requires
        remembers(after, noted, now, too_much),
        now <= later,
    ensures
        too_soon(after, id, later) == too_soon(noted, id, later),
{
    assert(after.dom().contains(id) <==> noted.dom().contains(id) && (too_much ==> now - noted[id]
        < 60000));
}

/// A component that was just used may be used again exactly when three seconds have passed.
pub proof fn interactions_are_three_seconds_apart(
    last: Map<Seq<char>, u64>,
    id: Seq<char>,
    used: u64,
    now: u64,
)
    requires
        last.dom().contains(id),
        last[id] == used,
    ensures
        too_soon(last, id, now) <==> now - used < 3000,
{
}

/// A message that only one user may see is sent to no one else, neither when it is new nor when
/// it was edited.
pub proof fn ephemeral_messages_stay_private(c: Connection, e: ChatEvent, m: MessageResponse)
    requires
        (e is New && e->New_message == m) || (e is Edited && e->Edited_message == m),
        m.visible_to_pubkey is Some,
        m.visible_to_pubkey->0@ != c.public_key@,
    ensures
        !deliverable(c, e),
{
}

/// No one is told of their own typing.
pub proof fn typing_is_not_echoed(c: Connection, e: ChatEvent)
    requires
        e is Typing,
        e->Typing_public_key@ == c.public_key@,
    ensures
        !deliverable(c, e),
{
}

/// Whether the event happened in the channel.
pub open spec fn happened_in(e: ChatEvent, channel: Seq<char>) -> bool {
    ||| e matches ChatEvent::New { channel_id, .. } && channel_id@ == channel
    ||| e matches ChatEvent::Edited { channel_id, .. } && channel_id@ == channel
    ||| e matches ChatEvent::Deleted { channel_id, .. } && channel_id@ == channel
    ||| e matches ChatEvent::ReactionsUpdated { channel_id, .. } && channel_id@ == channel
    ||| e matches ChatEvent::Typing { channel_id, .. } && channel_id@ == channel
    ||| e matches ChatEvent::ScreenShareStarted { channel_id, .. } && channel_id@ == channel
    ||| e matches ChatEvent::ScreenShareStopped { channel_id, .. } && channel_id@ == channel
}

/// What happens in a channel reaches everyone who subscribed to it: every deletion, every
/// reaction, every screen that starts or stops being shared, the typing of others, and every
/// message that is for everyone or for the user. It is sent at once, or kept back in order
/// while missed events are replayed.
pub proof fn subscribers_are_sent_what_happens(
    c: &mut Connection,
    e: &ChatEvent,
    json: String,
    r: Option<String>,
    channel: Seq<char>,
)
    requires
        call_ensures(Connection::on_chat_event, (c, e, json), r),
        old(c).subscribed@.dom().contains(channel),
        happened_in(*e, channel),
        *e matches ChatEvent::Typing { public_key, .. } ==> public_key@ != old(c).public_key@,
        *e matches ChatEvent::New { message, .. } ==> (message.visible_to_pubkey matches Some(v)
            ==> v@ == old(c).public_key@),
        *e matches ChatEvent::Edited { message, .. } ==> (message.visible_to_pubkey matches Some(v)
            ==> v@ == old(c).public_key@),
    ensures
        !old(c).replaying ==> r == Some(json) && final(c).buffered@ == old(c).buffered@,
        old(c).replaying ==> r is None && final(c).buffered@ == old(c).buffered@.push(json),
{
}

/// No one is sent what happens in a channel that they do not hear, a message that is for
/// someone else, or their own typing; nor is it kept back for them.
pub proof fn others_are_not_sent_what_happens(
    c: &mut Connection,
    e: &ChatEvent,
    json: String,
    r: Option<String>,
    channel: Seq<char>,
)
    requires
        call_ensures(Connection::on_chat_event, (c, e, json), r),
        happened_in(*e, channel),
        ({
            ||| !old(c).subscribed@.dom().contains(channel)
            ||| *e matches ChatEvent::Typing { public_key, .. } && public_key@
                == old(c).public_key@
            ||| *e matches ChatEvent::New { message, .. } && message.visible_to_pubkey is Some
                && message.visible_to_pubkey->0@ != old(c).public_key@
            ||| *e matches ChatEvent::Edited { message, .. } && message.visible_to_pubkey is Some
                && message.visible_to_pubkey->0@ != old(c).public_key@
        }),
    ensures
        r is None,
        final(c).buffered@ == old(c).buffered@,
{
}

/// What happens in a game reaches those who subscribed to its channel, and no one else.
pub proof fn game_events_reach_the_channel(
    c: &mut Connection,
    channel: &str,
    json: String,
    r: Option<String>,
)
    requires
        call_ensures(Connection::on_game_event, (c, channel, json), r),
    ensures
        r is Some <==> old(c).subscribed@.dom().contains(channel@) && !old(c).replaying,
        r is Some ==> r == Some(json),
        final(c).buffered@ == if old(c).subscribed@.dom().contains(channel@) && old(c).replaying {
            old(c).buffered@.push(json)
        } else {
            old(c).buffered@
        },
{
}

/// After subscribing to a channel one hears it, after unsubscribing one does not, and neither
/// changes what one hears of other channels.
pub proof fn subscribing_decides_what_is_heard(
    c: &mut Connection,
    live: &Live,
    channel: &str,
    acts: Vec<Action>,
    d: &mut Connection,
    gone: (),
    other: Seq<char>,
)
    requires
        call_ensures(Connection::on_subscribe, (c, live, channel), acts),
        call_ensures(Connection::on_unsubscribe, (d, channel), gone),
        *old(d) == *final(c),
    ensures
        final(c).subscribed@.dom().contains(channel@),
        !final(d).subscribed@.dom().contains(channel@),
        other != channel@ ==> (final(c).subscribed@.dom().contains(other)
            <==> old(c).subscribed@.dom().contains(other)),
        other != channel@ ==> (final(d).subscribed@.dom().contains(other)
            <==> old(c).subscribed@.dom().contains(other)),
        final(d).public_key == old(c).public_key,
        final(d).voice_channel == old(c).voice_channel,
{
}

/// In voice one is told of everyone else who comes, leaves or speaks in one's own channel.
pub proof fn voice_tells_of_the_others(
    c: &Connection,
    channel: &str,
    m: &WsServerMessage,
    r: bool,
)
    requires
        call_ensures(Connection::on_voice_event, (c, channel, m), r),
    ensures
        r ==> c.voice_channel is Some && c.voice_channel->0@ == channel@,
        *m matches WsServerMessage::VoiceParticipantJoined { participant, .. } ==> (r
            <==> c.voice_channel is Some && c.voice_channel->0@ == channel@
            && participant.public_key@ != c.public_key@),
        *m matches WsServerMessage::VoiceParticipantLeft { public_key, .. } ==> (r
            <==> c.voice_channel is Some && c.voice_channel->0@ == channel@ && public_key@
            != c.public_key@),
        *m matches WsServerMessage::VoiceParticipantSpeaking { public_key, .. } ==> (r
            <==> c.voice_channel is Some && c.voice_channel->0@ == channel@ && public_key@
            != c.public_key@),
{
}

/// One who may join a voice channel is in it afterwards, under their port; everyone else in the
/// channel is told who came, and they themself are not.
pub proof fn a_join_is_told_to_the_others(
    c: &mut Connection,
    voice: &mut Voice,
    channel: &str,
    port: u16,
    facts: &JoinFacts,
    acts: Vec<Action>,
    other: &Connection,
    spread_to: &str,
    m: &WsServerMessage,
    told: bool,
)
    requires
        call_ensures(Connection::on_voice_join, (c, voice, channel, port, facts), acts),
        !facts.voice_muted,
        facts.min_talk_power <= 0 || facts.priority >= facts.min_talk_power,
        acts@[1] matches Action::Voice(v, x) ==> v@ == spread_to@ && x == *m,
        call_ensures(Connection::on_voice_event, (other, spread_to, m), told),
    ensures
        acts@.len() == 3,
        acts@[1] is Voice,
        spread_to@ == channel@,
        *m matches WsServerMessage::VoiceParticipantJoined { channel_id, participant }
            && channel_id@ == channel@ && participant.public_key@ == old(c).public_key@,
        told <==> other.voice_channel is Some && other.voice_channel->0@ == channel@
            && other.public_key@ != old(c).public_key@,
        final(c).voice_channel is Some && final(c).voice_channel->0@ == channel@,
        final(voice).ports().dom().contains((channel@, old(c).public_key@)),
        final(voice).ports()[(channel@, old(c).public_key@)] == port,
        forall|k: (Seq<char>, Seq<char>)|
            k != (channel@, old(c).public_key@) ==> (#[trigger] final(voice).ports().dom().contains(k) <==> old(voice).ports().dom().contains(k)),
        acts@[2] matches Action::Publish(e) && e.event_type@ == "member.joined"@ && e.actor is Some
            && e.actor->0@ == old(c).public_key@ && e.channel_id is Some && e.channel_id->0@
            == channel@,
        acts@[0] matches Action::Send(s) && (s matches WsServerMessage::VoiceJoined {
            channel_id,
            hub_udp_port,
            ..
        } && channel_id@ == channel@ && hub_udp_port == facts.hub_udp_port),
{
}

/// One who is muted in voice, or of too low a priority to talk, joins no voice channel: they
/// are told why, nothing is spread, and nothing changes.
pub proof fn no_one_joins_who_may_not_talk(
    c: &mut Connection,
    voice: &mut Voice,
    channel: &str,
    port: u16,
    facts: &JoinFacts,
    acts: Vec<Action>,
)
    requires
        call_ensures(Connection::on_voice_join, (c, voice, channel, port, facts), acts),
        facts.voice_muted || (facts.min_talk_power > 0 && facts.priority < facts.min_talk_power),
    ensures
        acts@.len() == 1,
        acts@[0] matches Action::Send(WsServerMessage::Error { context, message }) && context@
            == "voice_join"@ && (facts.voice_muted ==> message@
            == "You are voice-muted on this hub."@),
        *final(c) == *old(c),
        *final(voice) == *old(voice),
{
}

/// One who leaves a voice channel is out of it, and no one else is; everyone else in the channel
/// is told who left.
pub proof fn a_leave_is_told_to_the_others(
    c: &mut Connection,
    voice: &mut Voice,
    channel: &str,
    acts: Vec<Action>,
    other: &Connection,
    spread_to: &str,
    m: &WsServerMessage,
    told: bool,
)
    requires
        call_ensures(Connection::on_voice_leave, (c, voice, channel), acts),
        acts@[0] matches Action::Voice(v, x) ==> v@ == spread_to@ && x == *m,
        call_ensures(Connection::on_voice_event, (other, spread_to, m), told),
    ensures
        acts@.len() == 2,
        acts@[0] is Voice,
        told <==> other.voice_channel is Some && other.voice_channel->0@ == channel@
            && other.public_key@ != old(c).public_key@,
        *m matches WsServerMessage::VoiceParticipantLeft { channel_id, public_key } && channel_id@
            == channel@ && public_key@ == old(c).public_key@,
        final(c).voice_channel is None,
        final(c).public_key == old(c).public_key,
        forall|k: (Seq<char>, Seq<char>)| #[trigger]
            final(voice).ports().dom().contains(k) <==> old(voice).ports().dom().contains(k) && k
                != (channel@, old(c).public_key@),
        acts@[1] matches Action::Publish(e) && e.event_type@ == "member.left"@ && e.actor is Some
            && e.actor->0@ == old(c).public_key@ && e.channel_id is Some && e.channel_id->0@
            == channel@,
{
}

/// That someone speaks, or no longer does, is told to everyone else in the voice channel.
pub proof fn speaking_is_told_to_the_others(
    c: &Connection,
    channel: &str,
    speaking: bool,
    a: Action,
    other: &Connection,
    spread_to: &str,
    m: &WsServerMessage,
    told: bool,
)
    requires
        call_ensures(Connection::on_voice_speaking, (c, channel, speaking), a),
        a matches Action::Voice(v, x) ==> v@ == spread_to@ && x == *m,
        call_ensures(Connection::on_voice_event, (other, spread_to, m), told),
    ensures
        a is Voice,
        told <==> other.voice_channel is Some && other.voice_channel->0@ == channel@
            && other.public_key@ != c.public_key@,
        *m matches WsServerMessage::VoiceParticipantSpeaking { public_key, speaking: s, .. }
            && public_key@ == c.public_key@ && s == speaking,
{
}

/// That someone types is sent to everyone else who hears the channel, and not back to them.
pub proof fn typing_reaches_the_others(
    c: &Connection,
    channel: &str,
    typing: bool,
    name: &Option<String>,
    a: Action,
    other: &mut Connection,
    e: &ChatEvent,
    json: String,
    r: Option<String>,
)
    requires
        call_ensures(Connection::on_typing, (c, channel, typing, name), a),
        a matches Action::Chat(x, _) ==> x == *e,
        call_ensures(Connection::on_chat_event, (other, e, json), r),
        !old(other).replaying,
    ensures
        a is Chat,
        r is Some <==> old(other).subscribed@.dom().contains(channel@) && old(other).public_key@
            != c.public_key@,
        *e matches ChatEvent::Typing { public_key, typing: t, .. } && public_key@ == c.public_key@
            && t == typing,
        a matches Action::Chat(_, WsServerMessage::Typing { channel_id, public_key, typing: t, .. })
            && channel_id@ == channel@ && public_key@ == c.public_key@ && t == typing,
{
}

/// That someone types in a conversation is told to everyone else in it, and to no one else.
pub proof fn dm_typing_reaches_the_conversation(
    c: &Connection,
    conversation: &str,
    typing: bool,
    name: &Option<String>,
    a: Action,
    other: &Connection,
    e: DmEvent,
    r: Option<WsServerMessage>,
)
    requires
        call_ensures(Connection::on_dm_typing, (c, conversation, typing, name), a),
        a matches Action::Dm(x) ==> x == e,
        call_ensures(Connection::on_dm, (other, e), r),
    ensures
        a is Dm,
        r is Some <==> texts(other.conversations@).contains(conversation@) && other.public_key@
            != c.public_key@,
        r matches Some(m) ==> (m matches WsServerMessage::DmTyping {
            conversation_id,
            sender,
            typing: t,
            ..
        } && conversation_id@ == conversation@ && sender@ == c.public_key@ && t == typing),
{
}

/// A direct message is shown, as it was written, to everyone in the conversation but its writer.
pub proof fn direct_messages_reach_the_conversation(
    c: &Connection,
    conversation_id: String,
    sender: String,
    sender_name: Option<String>,
    content: String,
    timestamp: i64,
    r: Option<WsServerMessage>,
)
    requires
        call_ensures(
            Connection::on_dm,
            (c, DmEvent::Message { conversation_id, sender, sender_name, content, timestamp }),
            r,
        ),
    ensures
        r is Some <==> texts(c.conversations@).contains(conversation_id@) && sender@
            != c.public_key@,
        r is Some ==> r == Some(
            WsServerMessage::DirectMessage {
                conversation_id,
                sender,
                sender_name,
                content,
                timestamp,
            },
        ),
{
}

/// One who starts to share where no one else shares has the stream under their name, and
/// everyone who hears the channel is told.
pub proof fn a_share_is_told_to_the_channel(
    c: &Connection,
    shares: &mut Table<Pair, ScreenStreamMeta>,
    channel: &str,
    stream: &str,
    kind: &str,
    mime: &str,
    has_audio: bool,
    now: u64,
    a: Action,
    other: &mut Connection,
    e: &ChatEvent,
    json: String,
    r: Option<String>,
)
    requires
        call_ensures(
            Connection::on_share_start,
            (c, shares, channel, stream, kind, mime, has_audio, now),
            a,
        ),
        forall|s: Seq<char>| #[trigger]
            old(shares)@.dom().contains((channel@, s)) ==> old(shares)@[(
                channel@,
                s,
            )].sharer_pubkey@ == c.public_key@,
        a matches Action::Chat(x, _) ==> x == *e,
        call_ensures(Connection::on_chat_event, (other, e, json), r),
        !old(other).replaying,
    ensures
        a is Chat,
        r is Some <==> old(other).subscribed@.dom().contains(channel@),
        final(shares)@.dom() == old(shares)@.dom().insert((channel@, stream@)),
        final(shares)@[(channel@, stream@)].sharer_pubkey@ == c.public_key@,
        final(shares)@[(channel@, stream@)].kind@ == kind@,
        final(shares)@[(channel@, stream@)].mime@ == mime@,
        final(shares)@[(channel@, stream@)].has_audio == has_audio,
        final(shares)@[(channel@, stream@)].started_at == now,
        final(shares)@[(channel@, stream@)].init_chunk is None,
        forall|k: (Seq<char>, Seq<char>)|
            k != (channel@, stream@) && #[trigger] old(shares)@.dom().contains(k) ==> final(shares)@[k] == old(shares)@[k],
        a matches Action::Chat(
            _,
            WsServerMessage::ScreenShareStarted { channel_id, stream_id, sharer_pubkey, .. },
        ) && channel_id@ == channel@ && stream_id@ == stream@ && sharer_pubkey@ == c.public_key@,
{
}

/// Where someone else shares in the channel no one starts to share: they are told so, and the
/// streams stay as they are.
pub proof fn no_one_shares_beside_another(
    c: &Connection,
    shares: &mut Table<Pair, ScreenStreamMeta>,
    channel: &str,
    stream: &str,
    kind: &str,
    mime: &str,
    has_audio: bool,
    now: u64,
    a: Action,
    taken: Seq<char>,
)
    requires
        call_ensures(
            Connection::on_share_start,
            (c, shares, channel, stream, kind, mime, has_audio, now),
            a,
        ),
        old(shares)@.dom().contains((channel@, taken)),
        old(shares)@[(channel@, taken)].sharer_pubkey@ != c.public_key@,
    ensures
        a matches Action::Send(WsServerMessage::Error { context, message }) && context@
            == "screen_share"@ && message@ == "Someone else is already sharing in this channel."@,
        *final(shares) == *old(shares),
{
}

/// A stream that is stopped is gone, no other is, and everyone who hears the channel is told.
pub proof fn a_stop_is_told_to_the_channel(
    c: &Connection,
    shares: &mut Table<Pair, ScreenStreamMeta>,
    channel: &str,
    stream: &str,
    a: Action,
    other: &mut Connection,
    e: &ChatEvent,
    json: String,
    r: Option<String>,
)
    requires
        call_ensures(Connection::on_share_stop, (c, shares, channel, stream), a),
        a matches Action::Chat(x, _) ==> x == *e,
        call_ensures(Connection::on_chat_event, (other, e, json), r),
        !old(other).replaying,
    ensures
        a is Chat,
        r is Some <==> old(other).subscribed@.dom().contains(channel@),
        *e matches ChatEvent::ScreenShareStopped { stream_id, sharer_pubkey, .. } && stream_id@
            == stream@ && sharer_pubkey@ == c.public_key@,
        forall|k: (Seq<char>, Seq<char>)| #[trigger]
            final(shares)@.dom().contains(k) <==> old(shares)@.dom().contains(k) && k != (
                channel@,
                stream@,
            ),
        a matches Action::Chat(
            _,
            WsServerMessage::ScreenShareStopped { channel_id, stream_id, sharer_pubkey },
        ) && channel_id@ == channel@ && stream_id@ == stream@ && sharer_pubkey@ == c.public_key@,
{
}

/// Bytes that were announced as a chunk reach everyone who hears the channel but the sharer,
/// with what was announced of them.
pub proof fn announced_chunks_reach_the_channel(
    c: &mut Connection,
    channel: &str,
    stream: &str,
    seq: u32,
    is_init: bool,
    done: (),
    d: &mut Connection,
    shares: &mut Table<Pair, ScreenStreamMeta>,
    data: Vec<u8>,
    a: Option<Action>,
    other: &Connection,
    e: ScreenChunkEvent,
    r: Option<(WsServerMessage, Vec<u8>)>,
)
    requires
        call_ensures(Connection::on_share_chunk, (c, channel, stream, seq, is_init), done),
        *old(d) == *final(c),
        call_ensures(Connection::on_binary, (d, shares, data), a),
        a matches Some(Action::Chunk(x)) ==> x == e,
        call_ensures(Connection::on_chunk, (other, e), r),
    ensures
        a is Some && a->0 is Chunk,
        r is Some <==> other.subscribed@.dom().contains(channel@) && other.public_key@ != old(c).public_key@,
        r matches Some(x) ==> x.1@ == data@ && (x.0 matches WsServerMessage::ScreenShareChunkOut {
            channel_id,
            stream_id,
            sharer_pubkey,
            seq: n,
            is_init: first,
        } && channel_id@ == channel@ && stream_id@ == stream@ && sharer_pubkey@ == old(c).public_key@ && n == seq && first == is_init),
        final(d).pending_chunk is None,
        final(shares)@.dom() == old(shares)@.dom(),
        is_init && old(shares)@.dom().contains((channel@, stream@)) ==> (final(shares)@[(
            channel@,
            stream@,
        )].init_chunk matches Some(b) && b@ == data@),
        !is_init ==> final(shares)@ == old(shares)@,
{
}

/// Bytes that nothing announced go nowhere.
pub proof fn unannounced_bytes_are_dropped(
    c: &mut Connection,
    shares: &mut Table<Pair, ScreenStreamMeta>,
    data: Vec<u8>,
    a: Option<Action>,
)
    requires
        call_ensures(Connection::on_binary, (c, shares, data), a),
        old(c).pending_chunk is None,
    ensures
        a is None,
        *final(shares) == *old(shares),
        final(c).pending_chunk is None,
{
}

/// A component can be used again once three seconds have passed, not before, and the use of one
/// does not hold up another.
pub proof fn a_component_rests_for_three_seconds(
    c: &mut Connection,
    message_id: String,
    custom_id: String,
    values: Vec<String>,
    first: u64,
    a: Action,
    d: &mut Connection,
    other_message: String,
    again: String,
    other_values: Vec<String>,
    second: u64,
    b: Action,
)
    requires
        call_ensures(Connection::on_interaction, (c, message_id, custom_id, values, first), a),
        !old(c).interactions@.dom().contains(custom_id@),
        *old(d) == *final(c),
        call_ensures(
            Connection::on_interaction,
            (d, other_message, again, other_values, second),
            b,
        ),
        first <= second,
    ensures
        a == (Action::Dispatch { message_id, custom_id, values }),
        again@ == custom_id@ && second - first >= 3000 ==> b == (Action::Dispatch {
            message_id: other_message,
            custom_id: again,
            values: other_values,
        }),
        again@ == custom_id@ && second - first < 3000 ==> (b matches Action::Send(
            WsServerMessage::Error { context, message },
        ) && context@ == "component_interaction"@ && message@
            == "Please wait before interacting again."@),
        again@ != custom_id@ && !old(c).interactions@.dom().contains(again@) ==> b == (
        Action::Dispatch { message_id: other_message, custom_id: again, values: other_values }),
{
}

/// While missed events are replayed a bot is sent nothing else; what came meanwhile follows, in
/// order, when the replay is over. Only bots have events replayed.
pub proof fn a_replay_holds_back_and_then_sends(
    c: &mut Connection,
    begun: bool,
    d: &mut Connection,
    json: String,
    r: Option<String>,
    f: &mut Connection,
    rest: Vec<String>,
)
    requires
        call_ensures(Connection::begin_resume, (c,), begun),
        *old(d) == *final(c),
        call_ensures(Connection::on_bot_push, (d, json), r),
        *old(f) == *final(d),
        call_ensures(Connection::end_resume, (f,), rest),
    ensures
        begun == old(c).is_bot,
        !old(c).is_bot ==> *final(c) == *old(c),
        begun ==> r is None && rest@ == old(c).buffered@.push(json),
        !begun && !old(c).replaying ==> r == Some(json),
        !final(f).replaying,
        final(f).buffered@.len() == 0,
        final(f).public_key == old(c).public_key,
        final(f).subscribed == old(c).subscribed,
{
}

/// One who connects is online and is greeted first; one who disconnects is offline, out of
/// voice, shares nothing and, if a bot, is no longer reached. Nothing of anyone else changes.
pub proof fn a_disconnect_undoes_a_connect(
    live: &mut Live,
    key: &str,
    is_bot: bool,
    conversations: Vec<String>,
    subscribed: Table<String, ()>,
    live_seq: i64,
    listening_since: u64,
    opened: (Connection, Vec<Action>),
    c: Connection,
    then: &mut Live,
    told: Option<Action>,
    other: Seq<char>,
    k: (Seq<char>, Seq<char>),
)
    requires
        call_ensures(
            connect,
            (live, key, is_bot, conversations, subscribed, live_seq, listening_since),
            opened,
        ),
        c.public_key@ == opened.0.public_key@,
        c.is_bot == opened.0.is_bot,
        call_ensures(Connection::disconnect, (c, then), told),
    ensures
        final(live).online@.dom().contains(key@),
        final(live).bots@.dom().contains(key@) <==> is_bot || old(live).bots@.dom().contains(key@),
        other != key@ ==> (final(live).online@.dom().contains(other) <==> old(live).online@.dom().contains(other)),
        opened.0.public_key@ == key@,
        opened.0.subscribed == subscribed,
        opened.0.voice_channel is None,
        opened.1@.len() > 0 ==> opened.1@[0] == Action::Hello(live_seq),
        opened.1@.len() > 0,
        !final(then).online@.dom().contains(key@),
        is_bot ==> !final(then).bots@.dom().contains(key@),
        other != key@ ==> (final(then).online@.dom().contains(other) <==> old(then).online@.dom().contains(other)),
        other != key@ ==> (final(then).bots@.dom().contains(other) <==> old(then).bots@.dom().contains(other)),
        final(then).shares@.dom().contains(k) <==> old(then).shares@.dom().contains(k) && old(then).shares@[k].sharer_pubkey@ != key@,
        c.voice_channel matches Some(v) ==> (final(then).voice.ports().dom().contains(k) <==> old(then).voice.ports().dom().contains(k) && k != (v@, key@)),
        c.voice_channel is None ==> told is None && final(then).voice == old(then).voice,
{
    assert(all_sent(opened.1@).len() == opened.1@.len());
    assert(all_sent(opened.1@)[0] == Sent::Hello(live_seq as int));
    assert(all_sent(opened.1@)[0] == sent(opened.1@[0]));
}

/// One who disconnects while in voice leaves the channel: everyone else in it is told.
pub proof fn a_disconnect_is_told_in_voice(
    c: Connection,
    live: &mut Live,
    a: Option<Action>,
    other: &Connection,
    spread_to: &str,
    m: &WsServerMessage,
    told: bool,
)
    requires
        call_ensures(Connection::disconnect, (c, live), a),
        c.voice_channel is Some,
        a matches Some(Action::Voice(v, x)) ==> v@ == spread_to@ && x == *m,
        call_ensures(Connection::on_voice_event, (other, spread_to, m), told),
    ensures
        a is Some && a->0 is Voice,
        told <==> other.voice_channel is Some && other.voice_channel->0@ == c.voice_channel->0@
            && other.public_key@ != c.public_key@,
        *m matches WsServerMessage::VoiceParticipantLeft { public_key, .. } && public_key@
            == c.public_key@,
{
}

/// A user hears on connecting every channel that is no category and from which they are not
/// banned, and no other.
pub proof fn one_hears_what_one_is_not_banned_from(
    channels: &Vec<ChannelKind>,
    bans: &Vec<ChannelBanResponse>,
    key: &str,
    r: Table<String, ()>,
    i: int,
)
    requires
        call_ensures(auto_subscribed, (channels, bans, key), r),
        0 <= i < channels@.len(),
        forall|j: int|
            0 <= j < channels@.len() && (#[trigger] channels@[j]).id@ == channels@[i].id@ ==> j == i,
    ensures
        r@.dom().contains(channels@[i].id@) <==> !channels@[i].is_category && forall|j: int|
            0 <= j < bans@.len() ==> !((#[trigger] bans@[j]).channel_id@ == channels@[i].id@
                && bans@[j].target_public_key@ == key@),
        forall|c: Seq<char>| #[trigger]
            r@.dom().contains(c) ==> exists|j: int|
                0 <= j < channels@.len() && (#[trigger] channels@[j]).id@ == c,
{
    let c = channels@[i].id@;
    assert(r@.dom().contains(c) <==> heard_first(channels@, bans@, key@, c));
    assert(heard_first(channels@, bans@, key@, c) <==> heard_by(channels@[i], bans@, key@));
}

/// Only the token of a session opens a connection, and only while its key stands.
pub proof fn a_connection_needs_a_session(
    session_key: Option<String>,
    revoked: bool,
    r: Result<String, HubError>,
)
    requires
        call_ensures(ws_handler, (session_key, revoked), r),
    ensures
        r is Ok <==> session_key is Some && !revoked,
        r matches Ok(k) ==> Some(k) == session_key,
        r matches Err(e) ==> e.status == 401 && e.message@ == if session_key is None {
            "Invalid token"@
        } else {
            "Key has been revoked"@
        },
{
}

/// What someone is shown of an event is the event, without what its message answers where that
/// is for someone else.
pub proof fn what_is_answered_stays_private(e: ChatEvent, viewer: &str, r: ChatEvent)
    requires
        call_ensures(event_for, (e, viewer), r),
    ensures
        e matches ChatEvent::New { channel_id, message } ==> (r matches ChatEvent::New {
            channel_id: c,
            message: m,
        } && c == channel_id && m == (MessageResponse { reply_to: m.reply_to, ..message }) && (
        message.reply_to is None ==> m.reply_to is None)),
        e matches ChatEvent::Edited { channel_id, message } ==> (r matches ChatEvent::Edited {
            channel_id: c,
            message: m,
        } && c == channel_id && m == (MessageResponse { reply_to: m.reply_to, ..message })),
        !(e is New) && !(e is Edited) ==> r == e,
{
}

/// Of a stream of the channel what is told stands in a row somewhere among what is told of the
/// channel.
proof fn lemma_frames_hold(
    keys: Seq<(Seq<char>, Seq<char>)>,
    s: Map<(Seq<char>, Seq<char>), ScreenStreamMeta>,
    channel: Seq<char>,
    before: Option<u64>,
    i: int,
) -> (p: int)
    requires
        0 <= i < keys.len(),
        keys[i].0 == channel,
        before is None || s[keys[i]].started_at < before->0,
    ensures
        0 <= p,
        p + stream_frames(keys[i], s[keys[i]]).len() <= channel_frames(
            keys,
            s,
            channel,
            before,
        ).len(),
        forall|n: int|
            0 <= n < stream_frames(keys[i], s[keys[i]]).len() ==> channel_frames(
                keys,
                s,
                channel,
                before,
            )[p + n] == #[trigger] stream_frames(keys[i], s[keys[i]])[n],
    decreases keys.len(),
{
    let rest = channel_frames(keys.drop_last(), s, channel, before);
    if i == keys.len() - 1 {
        rest.len() as int
    } else {
        assert(keys.drop_last()[i] == keys[i]);
        lemma_frames_hold(keys.drop_last(), s, channel, before, i)
    }
}

/// What is told of a channel is told of one of its streams, of those only that began in time.
proof fn lemma_frames_from(
    keys: Seq<(Seq<char>, Seq<char>)>,
    s: Map<(Seq<char>, Seq<char>), ScreenStreamMeta>,
    channel: Seq<char>,
    before: Option<u64>,
    n: int,
) -> (i: int)
    requires
        0 <= n < channel_frames(keys, s, channel, before).len(),
    ensures
        0 <= i < keys.len(),
        keys[i].0 == channel,
        before is None || s[keys[i]].started_at < before->0,
        stream_frames(keys[i], s[keys[i]]).contains(channel_frames(keys, s, channel, before)[n]),
    decreases keys.len(),
{
    let rest = channel_frames(keys.drop_last(), s, channel, before);
    if n < rest.len() {
        let i: int = lemma_frames_from(keys.drop_last(), s, channel, before, n);
        assert(keys.drop_last()[i] == keys[i]);
        i
    } else {
        let k = keys.last();
        let f = stream_frames(k, s[k]);
        assert(channel_frames(keys, s, channel, before)[n] == f[n - rest.len()]);
        assert(f.contains(f[n - rest.len()]));
        keys.len() - 1
    }
}

/// What is told of one of several channels stands somewhere among what is told of all.
proof fn lemma_channels_hold(
    keys: Seq<(Seq<char>, Seq<char>)>,
    s: Map<(Seq<char>, Seq<char>), ScreenStreamMeta>,
    channels: Seq<Seq<char>>,
    before: Option<u64>,
    i: int,
) -> (p: int)
    requires
        0 <= i < channels.len(),
    ensures
        0 <= p,
        p + channel_frames(keys, s, channels[i], before).len() <= channels_frames(
            keys,
            s,
            channels,
            before,
        ).len(),
        forall|n: int|
            0 <= n < channel_frames(keys, s, channels[i], before).len() ==> channels_frames(
                keys,
                s,
                channels,
                before,
            )[p + n] == #[trigger] channel_frames(keys, s, channels[i], before)[n],
    decreases channels.len(),
{
    let rest = channels_frames(keys, s, channels.drop_last(), before);
    if i == channels.len() - 1 {
        rest.len() as int
    } else {
        assert(channels.drop_last()[i] == channels[i]);
        lemma_channels_hold(keys, s, channels.drop_last(), before, i)
    }
}

/// What is told of several channels is told of one of them.
proof fn lemma_channels_from(
    keys: Seq<(Seq<char>, Seq<char>)>,
    s: Map<(Seq<char>, Seq<char>), ScreenStreamMeta>,
    channels: Seq<Seq<char>>,
    before: Option<u64>,
    n: int,
) -> (r: (int, int))
    requires
        0 <= n < channels_frames(keys, s, channels, before).len(),
    ensures
        0 <= r.0 < channels.len(),
        0 <= r.1 < channel_frames(keys, s, channels[r.0], before).len(),
        channels_frames(keys, s, channels, before)[n] == channel_frames(
            keys,
            s,
            channels[r.0],
            before,
        )[r.1],
    decreases channels.len(),
{
    let rest = channels_frames(keys, s, channels.drop_last(), before);
    if n < rest.len() {
        let r = lemma_channels_from(keys, s, channels.drop_last(), before, n);
        assert(channels.drop_last()[r.0] == channels[r.0]);
        r
    } else {
        (channels.len() - 1, n - rest.len())
    }
}

/// Whether the actions, from the place on, tell the client of the stream: that it has started,
/// and next, where there is one, its first chunk.
pub open spec fn tells_of_stream(
    acts: Seq<Action>,
    n: int,
    channel: Seq<char>,
    stream: Seq<char>,
    m: ScreenStreamMeta,
) -> bool {
    &&& 0 <= n < acts.len()
    &&& acts[n] matches Action::Send(
        WsServerMessage::ScreenShareStarted {
            channel_id,
            stream_id,
            sharer_pubkey,
            kind,
            mime,
            has_audio,
        },
    ) && channel_id@ == channel && stream_id@ == stream && sharer_pubkey@ == m.sharer_pubkey@
        && kind@ == m.kind@ && mime@ == m.mime@ && has_audio == m.has_audio
    &&& m.init_chunk matches Some(b) ==> n + 2 < acts.len() && (acts[n + 1] matches Action::Send(
        WsServerMessage::ScreenShareChunkOut {
            channel_id,
            stream_id,
            sharer_pubkey,
            seq,
            is_init,
        },
    ) && channel_id@ == channel && stream_id@ == stream && sharer_pubkey@ == m.sharer_pubkey@ && seq
        == 0 && is_init) && (acts[n + 2] matches Action::SendBinary(d) && d@ == b@)
}

/// Whether the action greets the client or tells it of a stream that is under way in the channel.
pub open spec fn tells_only_of(
    a: Action,
    s: Map<(Seq<char>, Seq<char>), ScreenStreamMeta>,
    channel: Seq<char>,
) -> bool {
    ||| a matches Action::Send(
        WsServerMessage::ScreenShareStarted { channel_id, stream_id, sharer_pubkey, .. },
    ) && channel_id@ == channel && s.dom().contains((channel, stream_id@)) && sharer_pubkey@ == s[(
        channel,
        stream_id@,
    )].sharer_pubkey@
    ||| a matches Action::Send(
        WsServerMessage::ScreenShareChunkOut { channel_id, stream_id, seq, is_init, .. },
    ) && channel_id@ == channel && s.dom().contains((channel, stream_id@)) && seq == 0 && is_init
    ||| a is SendBinary
}

/// The actions that send what is told of a stream tell the client of it.
proof fn lemma_told_of_stream(
    acts: Seq<Action>,
    n: int,
    k: (Seq<char>, Seq<char>),
    m: ScreenStreamMeta,
)
    requires
        0 <= n,
        n + stream_frames(k, m).len() <= acts.len(),
        forall|j: int|
            0 <= j < stream_frames(k, m).len() ==> all_sent(acts)[n + j]
                == #[trigger] stream_frames(k, m)[j],
    ensures
        tells_of_stream(acts, n, k.0, k.1, m),
{
    let f = stream_frames(k, m);
    assert(f[0] is Started);
    assert(all_sent(acts)[n + 0] == f[0]);
    assert(all_sent(acts)[n] == sent(acts[n]));
    if m.init_chunk is Some {
        assert(all_sent(acts)[n + 1] == f[1]);
        assert(all_sent(acts)[n + 2] == f[2]);
        assert(all_sent(acts)[n + 1] == sent(acts[n + 1]));
        assert(all_sent(acts)[n + 2] == sent(acts[n + 2]));
    }
}

/// One who subscribes to a channel is told of every stream that is under way in it, and of no
/// other; one who heard it already is told nothing.
#[verifier::spinoff_prover]
pub proof fn a_subscriber_is_told_of_the_streams(
    c: &mut Connection,
    live: &Live,
    channel: &str,
    acts: Vec<Action>,
    stream: Seq<char>,
    n: int,
)
    requires
        live.wf(),
        call_ensures(Connection::on_subscribe, (c, live, channel), acts),
    ensures
        old(c).subscribed@.dom().contains(channel@) ==> acts@.len() == 0,
        !old(c).subscribed@.dom().contains(channel@) && live.shares@.dom().contains(
            (channel@, stream),
        ) ==> exists|p: int|
            tells_of_stream(acts@, p, channel@, stream, live.shares@[(channel@, stream)]),
        0 <= n < acts@.len() ==> tells_only_of(acts@[n], live.shares@, channel@),
{
    let keys = live.shares.keys();
    let s = live.shares@;
    live.shares.lemma_keys();
    assert(all_sent(acts@).len() == acts@.len());
    let k = (channel@, stream);
    if !old(c).subscribed@.dom().contains(channel@) {
        if s.dom().contains(k) {
            assert(keys.contains(k));
            let i: int = choose|i: int| 0 <= i < keys.len() && keys[i] == k;
            let p: int = lemma_frames_hold(keys, s, channel@, None, i);
            lemma_told_of_stream(acts@, p, k, s[k]);
        }
        if 0 <= n < acts@.len() {
            let i: int = lemma_frames_from(keys, s, channel@, None, n);
            lemma_tells_only(acts@[n], s, keys, i);
        }
    }
}

/// What is told of a stream tells of it only.
proof fn lemma_tells_only(
    a: Action,
    s: Map<(Seq<char>, Seq<char>), ScreenStreamMeta>,
    keys: Seq<(Seq<char>, Seq<char>)>,
    i: int,
)
    requires
        0 <= i < keys.len(),
        keys.contains(keys[i]) ==> s.dom().contains(keys[i]),
        stream_frames(keys[i], s[keys[i]]).contains(sent(a)),
    ensures
        tells_only_of(a, s, keys[i].0),
{
    let k = keys[i];
    assert(keys.contains(k));
    assert(k == (k.0, k.1));
    let f = stream_frames(k, s[k]);
    let j: int = choose|j: int| 0 <= j < f.len() && f[j] == sent(a);
    assert(j == 0 || j == 1 || j == 2);
}

/// One who connects is greeted with the number of the latest event, then told of the streams
/// under way in the channels that they hear which began before they started to listen, and of no
/// others.
#[verifier::spinoff_prover]
#[verifier::rlimit(40)]
pub proof fn one_who_connects_is_told_of_the_streams(
    live: &mut Live,
    key: &str,
    is_bot: bool,
    conversations: Vec<String>,
    subscribed: Table<String, ()>,
    live_seq: i64,
    since: u64,
    r: (Connection, Vec<Action>),
    channel: Seq<char>,
    stream: Seq<char>,
    n: int,
)
    requires
        old(live).wf(),
        subscribed.wf(),
        call_ensures(
            connect,
            (live, key, is_bot, conversations, subscribed, live_seq, since),
            r,
        ),
    ensures
        r.1@.len() > 0 && r.1@[0] == Action::Hello(live_seq),
        subscribed@.dom().contains(channel) && old(live).shares@.dom().contains((channel, stream))
            && old(live).shares@[(channel, stream)].started_at < since ==> exists|p: int|
            tells_of_stream(
                r.1@,
                p,
                channel,
                stream,
                old(live).shares@[(channel, stream)],
            ),
        0 < n < r.1@.len() ==> exists|c: Seq<char>| #[trigger]
            subscribed@.dom().contains(c) && tells_only_of(r.1@[n], old(live).shares@, c),
        r.1@.len() > 1 ==> exists|k: (Seq<char>, Seq<char>)| #[trigger]
            old(live).shares@.dom().contains(k) && old(live).shares@[k].started_at < since
                && subscribed@.dom().contains(k.0),
{
    let keys = old(live).shares.keys();
    let s = old(live).shares@;
    let channels = subscribed.keys();
    let all = channels_frames(keys, s, channels, Some(since));
    old(live).shares.lemma_keys();
    subscribed.lemma_keys();
    let acts = r.1@;
    assert(all_sent(acts).len() == acts.len());
    assert(all_sent(acts)[0] == Sent::Hello(live_seq as int));
    assert(all_sent(acts)[0] == sent(acts[0]));
    let k = (channel, stream);
    if subscribed@.dom().contains(channel) && s.dom().contains(k) && s[k].started_at < since {
        assert(keys.contains(k) && channels.contains(channel));
        let i: int = choose|i: int| 0 <= i < keys.len() && keys[i] == k;
        let j: int = choose|j: int| 0 <= j < channels.len() && channels[j] == channel;
        let p: int = lemma_frames_hold(keys, s, channel, Some(since), i);
        let q: int = lemma_channels_hold(keys, s, channels, Some(since), j);
        let f = stream_frames(k, s[k]);
        let one = channel_frames(keys, s, channel, Some(since));
        assert forall|m: int| 0 <= m < f.len() implies all_sent(acts)[1 + q + p + m]
            == #[trigger] f[m] by {
            assert(one[p + m] == f[m]);
            assert(all[q + (p + m)] == one[p + m]);
            assert(all_sent(acts)[1 + (q + (p + m))] == all[q + (p + m)]);
        }
        assert(f.len() > 0);
        lemma_told_of_stream(acts, 1 + q + p, k, s[k]);
        assert(tells_of_stream(acts, 1 + q + p, channel, stream, s[k]));
    }
    if acts.len() > 1 {
        let at: int = if 0 < n < acts.len() {
            n
        } else {
            1
        };
        assert(all_sent(acts)[at] == all[at - 1]);
        let (j, m) = lemma_channels_from(keys, s, channels, Some(since), at - 1);
        let i: int = lemma_frames_from(keys, s, channels[j], Some(since), m);
        assert(keys.contains(keys[i]) && channels.contains(channels[j]));
        assert(sent(acts[at]) == all[at - 1]);
        lemma_tells_only(acts[at], s, keys, i);
        assert(keys[i].0 == channels[j]);
        assert(tells_only_of(acts[at], s, channels[j]));
        assert(subscribed@.dom().contains(channels[j]));
        assert(s.dom().contains(keys[i]));
    }
}

/// Uses of components are forgotten only where more than five hundred are remembered, and then
/// those that are a minute old or older.
pub proof fn old_uses_are_forgotten_when_there_are_many(
    c: &mut Connection,
    message_id: String,
    custom_id: String,
    values: Vec<String>,
    now: u64,
    a: Action,
    id: Seq<char>,
)
    requires
        call_ensures(Connection::on_interaction, (c, message_id, custom_id, values, now), a),
        !old(c).interactions@.dom().contains(custom_id@),
        id != custom_id@,
    ensures
        final(c).interactions@.dom().contains(custom_id@),
        final(c).interactions@[custom_id@] == now,
        final(c).interactions@.dom().contains(id) ==> old(c).interactions@.dom().contains(id)
            && final(c).interactions@[id] == old(c).interactions@[id],
        old(c).interactions.keys().len() < 500 && old(c).interactions@.dom().contains(id) ==> final(c).interactions@.dom().contains(id),
        old(c).interactions.keys().len() >= 500 && old(c).interactions@.dom().contains(id)
            ==> (final(c).interactions@.dom().contains(id) <==> now - old(c).interactions@[id]
            < 60000),
{
}

/// Whoever is taken out of a voice channel is told of as gone, and no one else leaves.
pub proof fn leaving_takes_one_user_out(
    voice: &mut Voice,
    key: &str,
    channel: &str,
    a: Action,
    k: (Seq<char>, Seq<char>),
)
    requires
        call_ensures(leave_voice, (voice, key, channel), a),
    ensures
        final(voice).ports().dom().contains(k) <==> old(voice).ports().dom().contains(k) && k != (
            channel@,
            key@,
        ),
        a matches Action::Voice(c, m) && c@ == channel@ && (m
            matches WsServerMessage::VoiceParticipantLeft { channel_id, public_key } && channel_id@
            == channel@ && public_key@ == key@),
{
}

/// What a message answers is kept from a user exactly where that message is for someone else.
pub proof fn what_is_answered_is_hidden_from_others(c: &Connection, e: &ChatEvent, r: bool)
    requires
        call_ensures(Connection::hides_answered, (c, e), r),
    ensures
        *e matches ChatEvent::New { message, .. } ==> (r <==> message.reply_to is Some
            && message.reply_to->0.visible_to_pubkey is Some
            && message.reply_to->0.visible_to_pubkey->0@ != c.public_key@),
        *e matches ChatEvent::Edited { message, .. } ==> (r <==> message.reply_to is Some
            && message.reply_to->0.visible_to_pubkey is Some
            && message.reply_to->0.visible_to_pubkey->0@ != c.public_key@),
        !(*e is New) && !(*e is Edited) ==> !r,
{
}

} // verus!
