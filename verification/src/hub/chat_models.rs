//! What goes over the wire: requests, messages, and the events of a channel.
use vstd::prelude::*;

verus! {

pub struct CreateChannelRequest {
    pub name: String,
    pub parent_id: Option<String>,
    pub is_category: bool,
    pub description: Option<String>,
}

#[derive(Clone)]
pub struct ChannelResponse {
    pub id: String,
    pub name: String,
    pub created_by: String,
    pub parent_id: Option<String>,
    pub is_category: bool,
    pub display_order: i64,
    pub description: Option<String>,
    pub icon: Option<String>,
    pub color: Option<String>,
    pub custom_icon_svg: Option<String>,
    pub created_at: i64,
}

/// A change to a channel. Of a field with two levels, an absent outer level leaves the value
/// alone and an absent inner one takes it away.
pub struct UpdateChannelRequest {
    pub name: Option<String>,
    pub description: Option<String>,
    pub parent_id: Option<Option<String>>,
    pub icon: Option<Option<String>>,
    pub color: Option<Option<String>>,
    pub custom_icon_svg: Option<Option<String>>,
}

/// A file carried within a message, its bytes in base64.
#[derive(Clone, Debug)]
pub struct Attachment {
    pub name: String,
    pub mime: String,
    pub data_b64: String,
}

/// The most bytes of base64 that all attachments of a message may have together.
pub const MAX_ATTACHMENTS_BYTES: usize = 3145728;

pub struct SendMessageRequest {
    pub content: String,
    pub attachments: Vec<Attachment>,
    pub reply_to: Option<String>,
}

/// What a reply shows of the message it answers. Where `visible_to_pubkey` is set only that user
/// sees it.
#[derive(Clone, Debug)]
pub struct ReplyContext {
    pub message_id: String,
    pub sender: String,
    pub sender_name: Option<String>,
    pub content_preview: String,
    pub visible_to_pubkey: Option<String>,
}

/// How many reacted with an emoji, and whether the viewer is among them.
#[derive(Clone, Debug)]
pub struct ReactionSummary {
    pub emoji: String,
    pub count: i64,
    pub me: bool,
}

/// A message. Where `visible_to_pubkey` is set only that user sees it.
#[derive(Clone, Debug)]
pub struct MessageResponse {
    pub id: String,
    pub channel_id: String,
    pub sender: String,
    pub sender_name: Option<String>,
    pub content: String,
    pub created_at: i64,
    pub edited_at: Option<i64>,
    pub attachments: Vec<Attachment>,
    pub reactions: Vec<ReactionSummary>,
    pub reply_to: Option<ReplyContext>,
    pub visible_to_pubkey: Option<String>,
}

pub struct ReactionRequest {
    pub emoji: String,
}

pub struct EditMessageRequest {
    pub content: String,
}

/// Something that happened in a channel.
#[derive(Clone, Debug)]
pub enum ChatEvent {
    New { channel_id: String, message: MessageResponse },
    Edited { channel_id: String, message: MessageResponse },
    Deleted { channel_id: String, message_id: String },
    ReactionsUpdated { channel_id: String, message_id: String, reactions: Vec<ReactionSummary> },
    Typing {
        channel_id: String,
        public_key: String,
        display_name: Option<String>,
        typing: bool,
    },
    ScreenShareStarted {
        channel_id: String,
        stream_id: String,
        sharer_pubkey: String,
        kind: String,
        mime: String,
        has_audio: bool,
    },
    ScreenShareStopped { channel_id: String, stream_id: String, sharer_pubkey: String },
}

impl ChatEvent {
    /// The channel in which it happened.
    pub open spec fn channel(self) -> Seq<char> {
        match self {
            ChatEvent::New { channel_id, .. } => channel_id@,
            ChatEvent::Edited { channel_id, .. } => channel_id@,
            ChatEvent::Deleted { channel_id, .. } => channel_id@,
            ChatEvent::ReactionsUpdated { channel_id, .. } => channel_id@,
            ChatEvent::Typing { channel_id, .. } => channel_id@,
            ChatEvent::ScreenShareStarted { channel_id, .. } => channel_id@,
            ChatEvent::ScreenShareStopped { channel_id, .. } => channel_id@,
        }
    }

    /// The channel in which it happened.
    pub fn channel_id(&self) -> (r: &str)
        ensures
            r@ == self.channel(),
    {
        match self {
            ChatEvent::New { channel_id, .. } => channel_id.as_str(),
            ChatEvent::Edited { channel_id, .. } => channel_id.as_str(),
            ChatEvent::Deleted { channel_id, .. } => channel_id.as_str(),
            ChatEvent::ReactionsUpdated { channel_id, .. } => channel_id.as_str(),
            ChatEvent::Typing { channel_id, .. } => channel_id.as_str(),
            ChatEvent::ScreenShareStarted { channel_id, .. } => channel_id.as_str(),
            ChatEvent::ScreenShareStopped { channel_id, .. } => channel_id.as_str(),
        }
    }
}

pub struct PaginationParams {
    pub before: Option<String>,
    pub limit: Option<i64>,
    pub q: Option<String>,
}

pub struct WsParams {
    pub token: String,
}

/// What a client sends over its connection.
pub enum WsClientMessage {
    Subscribe { channel_id: String },
    Unsubscribe { channel_id: String },
    VoiceJoin { channel_id: String, udp_port: u16 },
    VoiceLeave { channel_id: String },
    VoiceSpeaking { channel_id: String, speaking: bool },
    Typing { channel_id: String, typing: bool },
    DmTyping { conversation_id: String, typing: bool },
    ScreenShareStart {
        channel_id: String,
        stream_id: String,
        kind: String,
        mime: String,
        has_audio: bool,
    },
    ScreenShareChunk { channel_id: String, stream_id: String, seq: u32, is_init: bool },
    ScreenShareStop { channel_id: String, stream_id: String },
    Resume { since_seq: i64 },
    ComponentInteraction { message_id: String, custom_id: String, values: Vec<String> },
}

/// What the hub sends over a connection.
#[allow(inconsistent_fields)]
#[derive(Clone)]
pub enum WsServerMessage {
    ChatMessage { channel_id: String, message: MessageResponse },
    MessageEdited { channel_id: String, message: MessageResponse },
    MessageDeleted { channel_id: String, message_id: String },
    ReactionsUpdated { channel_id: String, message_id: String, reactions: Vec<ReactionSummary> },
    Typing {
        channel_id: String,
        public_key: String,
        display_name: Option<String>,
        typing: bool,
    },
    VoiceJoined {
        channel_id: String,
        hub_udp_port: u16,
        participants: Vec<VoiceParticipantInfo>,
    },
    VoiceParticipantJoined { channel_id: String, participant: VoiceParticipantInfo },
    VoiceParticipantLeft { channel_id: String, public_key: String },
    VoiceParticipantSpeaking { channel_id: String, public_key: String, speaking: bool },
    Error { context: String, message: String },
    DirectMessage {
        conversation_id: String,
        sender: String,
        sender_name: Option<String>,
        content: String,
        timestamp: i64,
    },
    DmTyping {
        conversation_id: String,
        sender: String,
        sender_name: Option<String>,
        typing: bool,
    },
    ScreenShareStarted {
        channel_id: String,
        stream_id: String,
        sharer_pubkey: String,
        kind: String,
        mime: String,
        has_audio: bool,
    },
    ScreenShareChunkOut {
        channel_id: String,
        stream_id: String,
        sharer_pubkey: String,
        seq: u32,
        is_init: bool,
    },
    ScreenShareStopped { channel_id: String, stream_id: String, sharer_pubkey: String },
}

#[derive(Clone)]
pub struct VoiceParticipantInfo {
    pub public_key: String,
    pub display_name: Option<String>,
}

/// An event happened in the channel that it names.
pub proof fn an_event_names_its_channel(e: &ChatEvent, r: &str)
    requires
        call_ensures(ChatEvent::channel_id, (e,), r),
    ensures
        *e matches ChatEvent::New { channel_id, .. } ==> r@ == channel_id@,
        *e matches ChatEvent::Edited { channel_id, .. } ==> r@ == channel_id@,
        *e matches ChatEvent::Deleted { channel_id, .. } ==> r@ == channel_id@,
        *e matches ChatEvent::ReactionsUpdated { channel_id, .. } ==> r@ == channel_id@,
        *e matches ChatEvent::Typing { channel_id, .. } ==> r@ == channel_id@,
        *e matches ChatEvent::ScreenShareStarted { channel_id, .. } ==> r@ == channel_id@,
        *e matches ChatEvent::ScreenShareStopped { channel_id, .. } ==> r@ == channel_id@,
{
}

} // verus!
