//! What the hub keeps in memory.
use vstd::prelude::*;

verus! {

/// Something that happened in a direct conversation.
#[derive(Clone, Debug)]
pub enum DmEvent {
    Message {
        conversation_id: String,
        sender: String,
        sender_name: Option<String>,
        content: String,
        timestamp: i64,
    },
    Typing {
        conversation_id: String,
        sender: String,
        sender_name: Option<String>,
        typing: bool,
    },
}

impl DmEvent {
    /// The conversation in which it happened.
    pub open spec fn conversation(self) -> Seq<char> {
        match self {
            DmEvent::Message { conversation_id, .. } => conversation_id@,
            DmEvent::Typing { conversation_id, .. } => conversation_id@,
        }
    }

    /// Who did it.
    pub open spec fn from(self) -> Seq<char> {
        match self {
            DmEvent::Message { sender, .. } => sender@,
            DmEvent::Typing { sender, .. } => sender@,
        }
    }

    /// The conversation in which it happened.
    pub fn conversation_id(&self) -> (r: &str)
        ensures
            r@ == self.conversation(),
    {
        match self {
            DmEvent::Message { conversation_id, .. } => conversation_id.as_str(),
            DmEvent::Typing { conversation_id, .. } => conversation_id.as_str(),
        }
    }

    /// Who did it.
    pub fn sender(&self) -> (r: &str)
        ensures
            r@ == self.from(),
    {
        match self {
            DmEvent::Message { sender, .. } => sender.as_str(),
            DmEvent::Typing { sender, .. } => sender.as_str(),
        }
    }
}

/// A challenge that was handed out and not answered yet. Times are in milliseconds of the
/// clock that the process counts from its start.
pub struct PendingChallenge {
    pub challenge_bytes: Vec<u8>,
    pub expires_at: u64,
}

/// A stream of a shared screen. The first chunk is kept for those who come later.
#[derive(Clone)]
pub struct ScreenStreamMeta {
    pub kind: String,
    pub mime: String,
    pub has_audio: bool,
    pub sharer_pubkey: String,
    pub init_chunk: Option<Vec<u8>>,
    pub started_at: u64,
}

/// A chunk of a shared screen on its way to the others.
#[derive(Clone)]
pub struct ScreenChunkEvent {
    pub channel_id: String,
    pub stream_id: String,
    pub sharer_pubkey: String,
    pub seq: u32,
    pub is_init: bool,
    pub data: Vec<u8>,
}

/// What happens in a conversation names the conversation and who did it.
pub proof fn an_event_names_its_conversation(e: &DmEvent, c: &str, s: &str)
    requires
        call_ensures(DmEvent::conversation_id, (e,), c),
        call_ensures(DmEvent::sender, (e,), s),
    ensures
        *e matches DmEvent::Message { conversation_id, sender, .. } ==> c@ == conversation_id@ && s@
            == sender@,
        *e matches DmEvent::Typing { conversation_id, sender, .. } ==> c@ == conversation_id@ && s@
            == sender@,
{
}

} // verus!
