//! Messages of a channel, and the reactions to them.
use vstd::prelude::*;
use vstd::utf8::encode_utf8;
use crate::hub::chat_models::{
    Attachment, ChatEvent, EditMessageRequest, MessageResponse, PaginationParams, ReactionRequest,
    ReactionSummary, ReplyContext, SendMessageRequest, MAX_ATTACHMENTS_BYTES,
};
use crate::hub::moderation::{
    banned_from, is_channel_banned, is_muted, muted, ChannelBanResponse, MuteResponse,
};
use crate::hub::payload::{
    concerns, field, member_views, members_are, nullable, nullable_view, HubEvent, JsonField,
    JsonValue, JsonView, Payload,
};
use crate::hub::permissions::{
    allows, lemma_may_is_allowed, UserPermissions, MANAGE_MESSAGES, SEND_MESSAGES,
};
use crate::hub::tags::{deduped, deduped_is_a_set};
use crate::hub::{hub_refusal, refuse, refused, HubError, HubRefusal};
use crate::rows::{keep_rows, lemma_filter_step, lemma_kept};
use crate::text::{
    begins_with, chars_of, concat3, contains_text, i64_text, opt_text, prefix_of, same,
    signed_decimal, starts_with, take_chars, texts, trim, trimmed,
};

verus! {

/// The most characters of a message that a reply to it shows.
pub const PREVIEW_CHARS: usize = 140;

/// The most characters of a reaction.
pub const EMOJI_CHARS: usize = 16;

/// A message as it is stored, with the name of its sender. The attachments are JSON text. Where
/// `visible_to_pubkey` is set only that user sees it.
pub struct MessageRow {
    pub id: String,
    pub channel_id: String,
    pub sender: String,
    pub sender_name: Option<String>,
    pub content: String,
    pub attachments: Option<String>,
    pub reply_to: Option<String>,
    pub created_at: i64,
    pub edited_at: Option<i64>,
    pub visible_to_pubkey: Option<String>,
}

/// What is known of the message that a reply answers.
pub struct ParentMessage {
    pub channel_id: String,
    pub sender: String,
    pub sender_name: Option<String>,
    pub content: String,
    pub visible_to_pubkey: Option<String>,
}

/// A reaction of a user to a message.
pub struct ReactionRow {
    pub message_id: String,
    pub emoji: String,
    pub user_key: String,
    pub created_at: i64,
}

/// The bytes of all attachments together, in base64.
pub open spec fn attached_bytes(a: Seq<Attachment>) -> nat
    decreases a.len(),
{
    if a.len() == 0 {
        0
    } else {
        attached_bytes(a.drop_last()) + encode_utf8(a.last().data_b64@).len()
    }
}

proof fn lemma_attached_grows(a: Seq<Attachment>, i: int)
    requires
        0 <= i <= a.len(),
    ensures
        attached_bytes(a.take(i)) <= attached_bytes(a),
    decreases a.len(),
{
    if i == a.len() {
        assert(a.take(i) =~= a);
    } else {
        assert(a.drop_last().take(i) =~= a.take(i));
        lemma_attached_grows(a.drop_last(), i);
    }
}

fn attachments_fit(a: &Vec<Attachment>) -> (r: bool)
    ensures
        r == (attached_bytes(a@) <= MAX_ATTACHMENTS_BYTES),
{
    let mut total: usize = 0;
    let mut i: usize = 0;
    while i < a.len()
        invariant
            i <= a@.len(),
            total == attached_bytes(a@.take(i as int)),
            total <= MAX_ATTACHMENTS_BYTES,
        decreases a@.len() - i,
    {
        assert(a@.take(i as int + 1).drop_last() =~= a@.take(i as int));
        let n: usize = a[i].data_b64.as_str().as_bytes().len();
        if n > MAX_ATTACHMENTS_BYTES - total {
            proof {
                lemma_attached_grows(a@, i as int + 1);
            }
            return false;
        }
        total = total + n;
        i = i + 1;
    }
    assert(a@.take(a@.len() as int) =~= a@);
    true
}

/// Why the message may not answer the other one, where it may not: that one must be there, and
/// in the same channel.
pub open spec fn reply_refusal(
    reply_to: Option<String>,
    parent: Option<ParentMessage>,
    channel: Seq<char>,
) -> Option<HubRefusal> {
    match reply_to {
        None => None,
        Some(_) => match parent {
            None => Some(hub_refusal(404, "Parent message not found"@)),
            Some(p) => if p.channel_id@ != channel {
                Some(hub_refusal(400, "Parent message is in a different channel"@))
            } else {
                None
            },
        },
    }
}

/// What is known when a message is to be sent.
pub struct SendFacts {
    pub perms: UserPermissions,
    pub mutes: Vec<MuteResponse>,
    pub channel_bans: Vec<ChannelBanResponse>,
    pub channel_exists: bool,
    /// The message that this one answers, where it is there.
    pub parent: Option<ParentMessage>,
    pub sender_name: Option<String>,
}

/// Why the message may not be sent, where it may not.
pub open spec fn send_refusal(
    f: SendFacts,
    user: Seq<char>,
    channel: Seq<char>,
    req: SendMessageRequest,
    now: i64,
) -> Option<HubRefusal> {
    if f.perms.refusal(SEND_MESSAGES@) is Some {
        f.perms.refusal(SEND_MESSAGES@)
    } else if muted(f.mutes@, user, now) {
        Some(hub_refusal(403, "You are muted"@))
    } else if banned_from(f.channel_bans@, channel, user) {
        Some(hub_refusal(403, "You are banned from this channel"@))
    } else if !f.channel_exists {
        Some(hub_refusal(404, "Channel not found"@))
    } else if attached_bytes(req.attachments@) > MAX_ATTACHMENTS_BYTES {
        Some(hub_refusal(413, "Attachments exceed 3MB cap"@))
    } else {
        reply_refusal(req.reply_to, f.parent, channel)
    }
}

/// Refuses a message that may not be sent.
pub fn may_send(
    facts: &SendFacts,
    user_key: &str,
    channel_id: &str,
    req: &SendMessageRequest,
    now: i64,
) -> (r: Result<(), HubError>)
    ensures
        match send_refusal(*facts, user_key@, channel_id@, *req, now) {
            Some(d) => refused(r, d),
            None => r is Ok,
        },
{
    match facts.perms.require(SEND_MESSAGES) {
        Ok(_) => {},
        Err(e) => return Err(e),
    }
    if is_muted(&facts.mutes, user_key, now) {
        return Err(refuse(403, "You are muted"));
    }
    if is_channel_banned(&facts.channel_bans, channel_id, user_key) {
        return Err(refuse(403, "You are banned from this channel"));
    }
    if !facts.channel_exists {
        return Err(refuse(404, "Channel not found"));
    }
    if !attachments_fit(&req.attachments) {
        return Err(refuse(413, "Attachments exceed 3MB cap"));
    }
    match &req.reply_to {
        None => Ok(()),
        Some(_) => match &facts.parent {
            None => Err(refuse(404, "Parent message not found")),
            Some(p) => if same(p.channel_id.as_str(), channel_id) {
                Ok(())
            } else {
                Err(refuse(400, "Parent message is in a different channel"))
            },
        },
    }
}

/// Whether the message is a command: it begins with a slash.
pub open spec fn is_command(content: Seq<char>) -> bool {
    begins_with(content, "/"@)
}

/// Whether the message is a command: it begins with a slash.
pub fn calls_command(content: &str) -> (r: bool)
    ensures
        r == is_command(content@),
{
    starts_with(content, "/")
}

/// Whether the context shows the message that is answered, for whom that message is: nothing
/// where it is gone.
pub open spec fn reply_shown(
    c: Option<ReplyContext>,
    reply_to: Option<String>,
    parent: Option<ParentMessage>,
) -> bool {
    match reply_to {
        None => c is None,
        Some(id) => match parent {
            None => c is None,
            Some(p) => c matches Some(x) && x.message_id@ == id@ && x.sender@ == p.sender@
                && opt_text(x.sender_name) == opt_text(p.sender_name) && x.content_preview@
                == prefix_of(p.content@, PREVIEW_CHARS as int) && opt_text(x.visible_to_pubkey)
                == opt_text(p.visible_to_pubkey),
        },
    }
}

/// What a reply shows of the message that it answers.
pub fn reply_context(reply_to: &Option<String>, parent: &Option<ParentMessage>) -> (c: Option<
    ReplyContext,
>)
    ensures
        reply_shown(c, *reply_to, *parent),
{
    match reply_to {
        None => None,
        Some(id) => match parent {
            None => None,
            Some(p) => Some(
                ReplyContext {
                    message_id: id.clone(),
                    sender: p.sender.clone(),
                    sender_name: p.sender_name.clone(),
                    content_preview: take_chars(p.content.as_str(), PREVIEW_CHARS),
                    visible_to_pubkey: p.visible_to_pubkey.clone(),
                },
            ),
        },
    }
}

/// Whether what the message answers is for the user to see: it answers nothing, or a message
/// for everyone or for them.
pub open spec fn sees_answered(m: MessageResponse, viewer: Seq<char>) -> bool {
    match m.reply_to {
        Some(c) => match c.visible_to_pubkey {
            Some(v) => v@ == viewer,
            None => true,
        },
        None => true,
    }
}

/// Whether what the message answers is for the user to see.
pub fn may_see_answered(m: &MessageResponse, viewer: &str) -> (r: bool)
    ensures
        r == sees_answered(*m, viewer@),
{
    match &m.reply_to {
        Some(c) => match &c.visible_to_pubkey {
            Some(v) => same(v.as_str(), viewer),
            None => true,
        },
        None => true,
    }
}

/// The message as the user is shown it: without what it answers where that is for someone else.
pub fn message_for(m: MessageResponse, viewer: &str) -> (r: MessageResponse)
    ensures
        r == if sees_answered(m, viewer@) {
            m
        } else {
            MessageResponse { reply_to: None, ..m }
        },
{
    if may_see_answered(&m, viewer) {
        m
    } else {
        let mut m = m;
        m.reply_to = None;
        m
    }
}

/// A reply shows the message that it answers to everyone who may see that message, and to no
/// one else.
pub proof fn answered_messages_stay_private(
    m: MessageResponse,
    shown: MessageResponse,
    reply_to: Option<String>,
    parent: Option<ParentMessage>,
    viewer: Seq<char>,
)
    requires
        reply_shown(m.reply_to, reply_to, parent),
        shown == (if sees_answered(m, viewer) {
            m
        } else {
            MessageResponse { reply_to: None, ..m }
        }),
    ensures
        shown.reply_to is Some <==> reply_to is Some && parent is Some && match opt_text(
            parent->0.visible_to_pubkey,
        ) {
            Some(v) => v == viewer,
            None => true,
        },
        shown.reply_to is Some ==> reply_shown(shown.reply_to, reply_to, parent),
{
}

/// What sending a message comes to.
pub enum Sent {
    /// A command that failed: its sender alone is told what went wrong, in place of the message.
    Failed { message: MessageResponse },
    /// The message is stored and spread, and the bots are told of it.
    Stored { message: MessageResponse, attachments: Option<String>, event: HubEvent },
}

/// Whether the message tells its sender, and no one else, what went wrong with a command.
pub open spec fn failure_told(
    m: MessageResponse,
    error: Seq<char>,
    user: Seq<char>,
    channel: Seq<char>,
    id: Seq<char>,
    now: i64,
) -> bool {
    &&& m.id@ == id
    &&& m.channel_id@ == channel
    &&& m.sender@ == user
    &&& m.sender_name is None
    &&& m.content@ == error
    &&& m.created_at == now
    &&& m.edited_at is None
    &&& m.attachments@.len() == 0
    &&& m.reactions@.len() == 0
    &&& m.reply_to is None
    &&& opt_text(m.visible_to_pubkey) == Some(user)
}

/// Whether the message is the one that was sent.
pub open spec fn message_sent(
    m: MessageResponse,
    f: SendFacts,
    user: Seq<char>,
    channel: Seq<char>,
    req: SendMessageRequest,
    id: Seq<char>,
    now: i64,
) -> bool {
    &&& m.id@ == id
    &&& m.channel_id@ == channel
    &&& m.sender@ == user
    &&& opt_text(m.sender_name) == opt_text(f.sender_name)
    &&& m.content@ == req.content@
    &&& m.created_at == now
    &&& m.edited_at is None
    &&& m.attachments == req.attachments
    &&& m.reactions@.len() == 0
    &&& reply_shown(m.reply_to, req.reply_to, f.parent)
    &&& m.visible_to_pubkey is None
}

/// Whether the event tells the bots of the message.
pub open spec fn creation_told(e: HubEvent, m: MessageResponse, attachments_json: Seq<char>) -> bool {
    &&& concerns(e, "message.created"@, m.sender@, None, Some(m.channel_id@))
    &&& members_are(
        e.payload,
        seq![
            ("message_id"@, JsonView::Text(m.id@)),
            ("content"@, JsonView::Text(m.content@)),
            ("sender"@, JsonView::Text(m.sender@)),
            ("sender_name"@, nullable_view(opt_text(m.sender_name))),
            ("created_at"@, JsonView::Raw(signed_decimal(m.created_at as int))),
            ("attachments"@, JsonView::Raw(attachments_json)),
        ],
    )
}

fn creation_event(m: &MessageResponse, attachments_json: &str) -> (e: HubEvent)
    ensures
        creation_told(e, *m, attachments_json@),
{
    let mut f: Vec<JsonField> = Vec::new();
    f.push(field("message_id", JsonValue::Text(m.id.clone())));
    f.push(field("content", JsonValue::Text(m.content.clone())));
    f.push(field("sender", JsonValue::Text(m.sender.clone())));
    f.push(field("sender_name", nullable(&m.sender_name)));
    f.push(field("created_at", JsonValue::Raw(i64_text(m.created_at))));
    f.push(field("attachments", JsonValue::Raw(attachments_json.to_owned())));
    assert(member_views(f@) =~= seq![
        ("message_id"@, JsonView::Text(m.id@)),
        ("content"@, JsonView::Text(m.content@)),
        ("sender"@, JsonView::Text(m.sender@)),
        ("sender_name"@, nullable_view(opt_text(m.sender_name))),
        ("created_at"@, JsonView::Raw(signed_decimal(m.created_at as int))),
        ("attachments"@, JsonView::Raw(attachments_json@)),
    ]);
    HubEvent {
        event_type: "message.created".to_owned(),
        actor: Some(m.sender.clone()),
        target: None,
        channel_id: Some(m.channel_id.clone()),
        payload: Payload::Object(f),
    }
}

/// Sends a message under the given identifier. Of a command it is given what went wrong with
/// it, where a bot took it and failed; of the attachments, their JSON text.
pub fn send_message(
    facts: &SendFacts,
    user_key: &str,
    channel_id: &str,
    req: SendMessageRequest,
    attachments_json: &str,
    command_error: Option<String>,
    id: &str,
    now: i64,
) -> (r: Result<Sent, HubError>)
    ensures
        match send_refusal(*facts, user_key@, channel_id@, req, now) {
            Some(d) => refused(r, d),
            None => if is_command(req.content@) && command_error is Some {
                r matches Ok(Sent::Failed { message }) && failure_told(
                    message,
                    command_error->0@,
                    user_key@,
                    channel_id@,
                    id@,
                    now,
                )
            } else {
                r matches Ok(Sent::Stored { message, attachments, event }) && message_sent(
                    message,
                    *facts,
                    user_key@,
                    channel_id@,
                    req,
                    id@,
                    now,
                ) && opt_text(attachments) == (if req.attachments@.len() == 0 {
                    None
                } else {
                    Some(attachments_json@)
                }) && creation_told(event, message, attachments_json@)
            },
        },
{
    match may_send(facts, user_key, channel_id, &req, now) {
        Ok(_) => {},
        Err(e) => return Err(e),
    }
    if calls_command(req.content.as_str()) {
        match command_error {
            Some(error) => {
                return Ok(
                    Sent::Failed {
                        message: MessageResponse {
                            id: id.to_owned(),
                            channel_id: channel_id.to_owned(),
                            sender: user_key.to_owned(),
                            sender_name: None,
                            content: error,
                            created_at: now,
                            edited_at: None,
                            attachments: Vec::new(),
                            reactions: Vec::new(),
                            reply_to: None,
                            visible_to_pubkey: Some(user_key.to_owned()),
                        },
                    },
                );
            },
            None => {},
        }
    }
    let attachments: Option<String> = if req.attachments.len() == 0 {
        None
    } else {
        Some(attachments_json.to_owned())
    };
    let message = MessageResponse {
        id: id.to_owned(),
        channel_id: channel_id.to_owned(),
        sender: user_key.to_owned(),
        sender_name: facts.sender_name.clone(),
        content: req.content,
        created_at: now,
        edited_at: None,
        attachments: req.attachments,
        reactions: Vec::new(),
        reply_to: reply_context(&req.reply_to, &facts.parent),
        visible_to_pubkey: None,
    };
    let event = creation_event(&message, attachments_json);
    Ok(Sent::Stored { message, attachments, event })
}

/// One who is muted sends nothing.
pub proof fn the_muted_are_silent(
    f: SendFacts,
    user: Seq<char>,
    channel: Seq<char>,
    req: SendMessageRequest,
    now: i64,
)
    requires
        muted(f.mutes@, user, now),
    ensures
        send_refusal(f, user, channel, req, now) is Some,
{
}

/// Why the message may not be touched under the channel, where it may not.
pub open spec fn place_refusal(row: Option<MessageRow>, channel: Seq<char>) -> Option<HubRefusal> {
    match row {
        None => Some(hub_refusal(404, "Message not found"@)),
        Some(m) => if m.channel_id@ != channel {
            Some(hub_refusal(404, "Message not in this channel"@))
        } else {
            None
        },
    }
}

/// Why the message may not be edited, where it may not: only its sender may.
pub open spec fn edit_refusal(
    row: Option<MessageRow>,
    user: Seq<char>,
    channel: Seq<char>,
) -> Option<HubRefusal> {
    if place_refusal(row, channel) is Some {
        place_refusal(row, channel)
    } else if row->0.sender@ != user {
        Some(hub_refusal(403, "You can only edit your own messages"@))
    } else {
        None
    }
}

/// Edits a message: the row afterwards. It is then shown again to all.
pub fn edit_message(
    row: Option<MessageRow>,
    user_key: &str,
    channel_id: &str,
    req: EditMessageRequest,
    now: i64,
) -> (r: Result<MessageRow, HubError>)
    ensures
        match edit_refusal(row, user_key@, channel_id@) {
            Some(d) => refused(r, d),
            None => r matches Ok(m) && m == (MessageRow {
                content: req.content,
                edited_at: Some(now),
                ..row->0
            }),
        },
{
    match row {
        None => Err(refuse(404, "Message not found")),
        Some(m) => {
            if !same(m.channel_id.as_str(), channel_id) {
                return Err(refuse(404, "Message not in this channel"));
            }
            if !same(m.sender.as_str(), user_key) {
                return Err(refuse(403, "You can only edit your own messages"));
            }
            let mut m = m;
            m.content = req.content;
            m.edited_at = Some(now);
            Ok(m)
        },
    }
}

/// Why the message may not be deleted, where it may not: its sender may, and those who manage
/// messages.
pub open spec fn delete_refusal(
    row: Option<MessageRow>,
    perms: UserPermissions,
    user: Seq<char>,
    channel: Seq<char>,
) -> Option<HubRefusal> {
    if place_refusal(row, channel) is Some {
        place_refusal(row, channel)
    } else if row->0.sender@ == user {
        None
    } else {
        perms.refusal(MANAGE_MESSAGES@)
    }
}

/// Deletes a message: what is told in the channel.
pub fn delete_message(
    row: &Option<MessageRow>,
    perms: &UserPermissions,
    user_key: &str,
    channel_id: &str,
    message_id: &str,
) -> (r: Result<ChatEvent, HubError>)
    ensures
        match delete_refusal(*row, *perms, user_key@, channel_id@) {
            Some(d) => refused(r, d),
            None => r matches Ok(e) && e matches ChatEvent::Deleted {
                channel_id: c,
                message_id: m,
            } && c@ == channel_id@ && m@ == message_id@,
        },
{
    match row {
        None => return Err(refuse(404, "Message not found")),
        Some(m) => {
            if !same(m.channel_id.as_str(), channel_id) {
                return Err(refuse(404, "Message not in this channel"));
            }
            if !same(m.sender.as_str(), user_key) {
                match perms.require(MANAGE_MESSAGES) {
                    Ok(_) => {},
                    Err(e) => return Err(e),
                }
            }
        },
    }
    Ok(
        ChatEvent::Deleted {
            channel_id: channel_id.to_owned(),
            message_id: message_id.to_owned(),
        },
    )
}

/// Whoever may edit a message may delete it.
pub proof fn editors_may_delete(
    row: Option<MessageRow>,
    perms: UserPermissions,
    user: Seq<char>,
    channel: Seq<char>,
)
    requires
        edit_refusal(row, user, channel) is None,
    ensures
        delete_refusal(row, perms, user, channel) is None,
{
}

/// A message as it is shown: the row, with its attachments read, the reactions to it, and what
/// it answers.
pub fn message_response(
    row: MessageRow,
    attachments: Vec<Attachment>,
    reactions: Vec<ReactionSummary>,
    parent: &Option<ParentMessage>,
) -> (m: MessageResponse)
    ensures
        m.id == row.id,
        m.channel_id == row.channel_id,
        m.sender == row.sender,
        m.sender_name == row.sender_name,
        m.content == row.content,
        m.created_at == row.created_at,
        m.edited_at == row.edited_at,
        m.attachments == attachments,
        m.reactions == reactions,
        reply_shown(m.reply_to, row.reply_to, *parent),
        m.visible_to_pubkey == row.visible_to_pubkey,
{
    let reply_to = reply_context(&row.reply_to, parent);
    MessageResponse {
        id: row.id,
        channel_id: row.channel_id,
        sender: row.sender,
        sender_name: row.sender_name,
        content: row.content,
        created_at: row.created_at,
        edited_at: row.edited_at,
        attachments,
        reactions,
        reply_to,
        visible_to_pubkey: row.visible_to_pubkey,
    }
}

/// Which messages of a channel are asked for, newest first: those that match a pattern, all or
/// those before another one; those before another one; or the latest. A negative limit is none.
pub enum Selection {
    Search { pattern: String, before: Option<String>, limit: i64 },
    Before { id: String, limit: i64 },
    Latest { limit: i64 },
}

/// Which messages are asked for, and who asks: only those count that the viewer may see.
pub struct MessageQuery {
    pub selection: Selection,
    pub viewer: String,
}

/// The most messages that are asked for: fifty where nothing is said, and at most a hundred.
pub open spec fn message_limit(p: PaginationParams) -> i64 {
    match p.limit {
        None => 50,
        Some(n) => if n > 100 {
            100
        } else {
            n
        },
    }
}

/// What is searched for, where anything is.
pub open spec fn searched(p: PaginationParams) -> Option<Seq<char>> {
    match p.q {
        Some(q) => if trimmed(q@).len() > 0 {
            Some(trimmed(q@))
        } else {
            None
        },
        None => None,
    }
}

/// Whether the selection is the one that is asked for. A search goes page by page as well.
pub open spec fn selected(s: Selection, p: PaginationParams) -> bool {
    match searched(p) {
        Some(q) => s matches Selection::Search { pattern, before, limit } && pattern@
            == "%"@ + q + "%"@ && opt_text(before) == opt_text(p.before) && limit
            == message_limit(p),
        None => match p.before {
            Some(b) => s matches Selection::Before { id, limit } && id@ == b@ && limit
                == message_limit(p),
            None => s matches Selection::Latest { limit } && limit == message_limit(p),
        },
    }
}

fn selection_of(params: &PaginationParams) -> (r: Selection)
    ensures
        selected(r, *params),
{
    let limit: i64 = match params.limit {
        None => 50,
        Some(n) => if n > 100 {
            100
        } else {
            n
        },
    };
    match &params.q {
        Some(q) => {
            let t = trim(q.as_str());
            if !t.as_str().is_empty() {
                return Selection::Search {
                    pattern: concat3("%", t.as_str(), "%"),
                    before: params.before.clone(),
                    limit,
                };
            }
        },
        None => {},
    }
    match &params.before {
        Some(b) => Selection::Before { id: b.clone(), limit },
        None => Selection::Latest { limit },
    }
}

/// Which messages of a channel are asked for, by whom.
pub fn message_query(params: &PaginationParams, viewer: &str) -> (r: MessageQuery)
    ensures
        selected(r.selection, *params),
        r.viewer@ == viewer@,
{
    MessageQuery { selection: selection_of(params), viewer: viewer.to_owned() }
}

/// Whether the user may see the message: it is for everyone, or for them.
pub open spec fn shown_to(row: MessageRow, viewer: Seq<char>) -> bool {
    match row.visible_to_pubkey {
        None => true,
        Some(v) => v@ == viewer,
    }
}

/// The messages that the user may see, as a condition.
pub open spec fn is_shown_to(viewer: Seq<char>) -> spec_fn(MessageRow) -> bool {
    |row: MessageRow| shown_to(row, viewer)
}

/// The messages to list, given those that the storage found for the query: the ones that the
/// viewer may see, in their order.
pub fn get_messages(found: Vec<MessageRow>, viewer: &str) -> (r: Vec<MessageRow>)
    ensures
        r@ == found@.filter(is_shown_to(viewer@)),
{
    let mut rows = found;
    let seen = |row: &MessageRow| -> (b: bool)
        ensures
            b == shown_to(*row, viewer@),
    {
        match &row.visible_to_pubkey {
            None => true,
            Some(v) => same(v.as_str(), viewer),
        }
    };
    keep_rows(&mut rows, seen, Ghost(is_shown_to(viewer@)));
    rows
}

/// A message for one user is listed to no one else, and every message that is for everyone or
/// for the viewer stays.
pub proof fn messages_for_one_stay_private(
    rows: Seq<MessageRow>,
    viewer: Seq<char>,
    row: MessageRow,
)
    ensures
        rows.filter(is_shown_to(viewer)).contains(row) <==> rows.contains(row) && shown_to(
            row,
            viewer,
        ),
{
    let p = is_shown_to(viewer);
    let kept = rows.filter(p);
    if kept.contains(row) {
        let k = choose|k: int| 0 <= k < kept.len() && kept[k] == row;
        rows.lemma_filter_pred(p, k);
        rows.lemma_filter_contains_rev(p, row);
    }
    if rows.contains(row) && p(row) {
        let k = choose|k: int| 0 <= k < rows.len() && rows[k] == row;
        rows.lemma_filter_contains(p, k);
    }
}

/// The reactions to the message, as a condition.
pub open spec fn is_to(message: Seq<char>) -> spec_fn(ReactionRow) -> bool {
    |r: ReactionRow| r.message_id@ == message
}

/// The emojis of the reactions, in order.
pub open spec fn emojis(rows: Seq<ReactionRow>) -> Seq<Seq<char>> {
    rows.map_values(|r: ReactionRow| r.emoji@)
}

/// How many of the reactions to the message are the emoji.
pub open spec fn reaction_count(rows: Seq<ReactionRow>, message: Seq<char>, emoji: Seq<char>) -> nat
    decreases rows.len(),
{
    if rows.len() == 0 {
        0
    } else {
        let n = reaction_count(rows.drop_last(), message, emoji);
        if rows.last().message_id@ == message && rows.last().emoji@ == emoji {
            n + 1
        } else {
            n
        }
    }
}

/// Whether the user reacted to the message with the emoji.
pub open spec fn reacted(
    rows: Seq<ReactionRow>,
    message: Seq<char>,
    emoji: Seq<char>,
    user: Seq<char>,
) -> bool {
    exists|i: int|
        0 <= i < rows.len() && (#[trigger] rows[i]).message_id@ == message && rows[i].emoji@
            == emoji && rows[i].user_key@ == user
}

/// The emojis of the summaries, in order.
pub open spec fn summary_emojis(s: Seq<ReactionSummary>) -> Seq<Seq<char>> {
    s.map_values(|x: ReactionSummary| x.emoji@)
}

/// Whether the summaries are those of the reactions to the message: one for each emoji, in the
/// order in which they first came, with how many there are, and whether the viewer is among
/// them.
pub open spec fn sums_up(
    s: Seq<ReactionSummary>,
    rows: Seq<ReactionRow>,
    message: Seq<char>,
    viewer: Option<Seq<char>>,
) -> bool {
    &&& summary_emojis(s) == deduped(emojis(rows.filter(is_to(message))))
    &&& forall|i: int|
        0 <= i < s.len() ==> (#[trigger] s[i]).count == reaction_count(rows, message, s[i].emoji@)
            && s[i].me == match viewer {
            Some(v) => reacted(rows, message, s[i].emoji@, v),
            None => false,
        }
}

fn count_reactions(rows: &Vec<ReactionRow>, message_id: &str, emoji: &str) -> (r: i64)
    requires
        rows@.len() <= i64::MAX,
    ensures
        r == reaction_count(rows@, message_id@, emoji@),
{
    let mut n: i64 = 0;
    let mut i: usize = 0;
    while i < rows.len()
        invariant
            i <= rows@.len() <= i64::MAX,
            n == reaction_count(rows@.take(i as int), message_id@, emoji@),
            n <= i,
        decreases rows@.len() - i,
    {
        assert(rows@.take(i as int + 1).drop_last() =~= rows@.take(i as int));
        if same(rows[i].message_id.as_str(), message_id) && same(rows[i].emoji.as_str(), emoji) {
            n = n + 1;
        }
        i = i + 1;
    }
    assert(rows@.take(rows@.len() as int) =~= rows@);
    n
}

fn has_reacted(rows: &Vec<ReactionRow>, message_id: &str, emoji: &str, user: &str) -> (r: bool)
    ensures
        r == reacted(rows@, message_id@, emoji@, user@),
{
    let mut i: usize = 0;
    while i < rows.len()
        invariant
            i <= rows@.len(),
            forall|k: int|
                0 <= k < i ==> !((#[trigger] rows@[k]).message_id@ == message_id@ && rows@[k].emoji@
                    == emoji@ && rows@[k].user_key@ == user@),
        decreases rows@.len() - i,
    {
        if same(rows[i].message_id.as_str(), message_id) && same(rows[i].emoji.as_str(), emoji)
            && same(rows[i].user_key.as_str(), user) {
            return true;
        }
        i = i + 1;
    }
    false
}

fn distinct_emojis(rows: &Vec<ReactionRow>, message_id: &str) -> (r: Vec<String>)
    ensures
        texts(r@) == deduped(emojis(rows@.filter(is_to(message_id@)))),
{
    let mut out: Vec<String> = Vec::new();
    let ghost p = is_to(message_id@);
    let mut i: usize = 0;
    assert(rows@.take(0) =~= Seq::<ReactionRow>::empty());
    reveal(Seq::filter);
    assert(emojis(Seq::<ReactionRow>::empty()) =~= Seq::<Seq<char>>::empty());
    assert(texts(out@) =~= Seq::<Seq<char>>::empty());
    while i < rows.len()
        invariant
            i <= rows@.len(),
            p == is_to(message_id@),
            texts(out@) == deduped(emojis(rows@.take(i as int).filter(p))),
        decreases rows@.len() - i,
    {
        proof {
            lemma_filter_step(rows@, p, i as int);
        }
        if same(rows[i].message_id.as_str(), message_id) {
            let ghost f = rows@.take(i as int).filter(p);
            proof {
                assert(emojis(f.push(rows@[i as int])) =~= emojis(f).push(
                    rows@[i as int].emoji@,
                ));
                assert(emojis(f).push(rows@[i as int].emoji@).drop_last() =~= emojis(f));
            }
            if !contains_text(&out, rows[i].emoji.as_str()) {
                let ghost before = texts(out@);
                out.push(rows[i].emoji.clone());
                assert(texts(out@) =~= before.push(rows@[i as int].emoji@));
            }
        }
        i = i + 1;
    }
    assert(rows@.take(rows@.len() as int) =~= rows@);
    out
}

fn summarise(rows: &Vec<ReactionRow>, message_id: &str, viewer: &Option<String>) -> (r: Vec<
    ReactionSummary,
>)
    requires
        rows@.len() <= i64::MAX,
    ensures
        sums_up(r@, rows@, message_id@, opt_text(*viewer)),
{
    let names = distinct_emojis(rows, message_id);
    let mut out: Vec<ReactionSummary> = Vec::new();
    let mut i: usize = 0;
    assert(summary_emojis(out@) =~= texts(names@).take(0));
    while i < names.len()
        invariant
            i <= names@.len(),
            rows@.len() <= i64::MAX,
            summary_emojis(out@) == texts(names@).take(i as int),
            forall|k: int|
                0 <= k < out@.len() ==> (#[trigger] out@[k]).count == reaction_count(
                    rows@,
                    message_id@,
                    out@[k].emoji@,
                ) && out@[k].me == match opt_text(*viewer) {
                    Some(v) => reacted(rows@, message_id@, out@[k].emoji@, v),
                    None => false,
                },
        decreases names@.len() - i,
    {
        let emoji = names[i].as_str();
        let me = match viewer {
            Some(v) => has_reacted(rows, message_id, emoji, v.as_str()),
            None => false,
        };
        let ghost before = summary_emojis(out@);
        let ghost old_out = out@;
        out.push(
            ReactionSummary {
                emoji: emoji.to_owned(),
                count: count_reactions(rows, message_id, emoji),
                me,
            },
        );
        proof {
            assert(summary_emojis(out@) =~= before.push(emoji@));
            assert(texts(names@).take(i as int).push(texts(names@)[i as int]) =~= texts(
                names@,
            ).take(i as int + 1));
            assert forall|k: int| 0 <= k < out@.len() implies (#[trigger] out@[k]).count
                == reaction_count(rows@, message_id@, out@[k].emoji@) && out@[k].me
                == match opt_text(*viewer) {
                Some(v) => reacted(rows@, message_id@, out@[k].emoji@, v),
                None => false,
            } by {
                if k < old_out.len() {
                    assert(out@[k] == old_out[k]);
                }
            }
        }
        i = i + 1;
    }
    assert(texts(names@).take(names@.len() as int) =~= texts(names@));
    out
}

/// The reactions to a message as the viewer sees them, of rows in the order in which they came.
pub fn load_reactions(rows: &Vec<ReactionRow>, message_id: &str, viewer: &str) -> (r: Vec<
    ReactionSummary,
>)
    requires
        rows@.len() <= i64::MAX,
    ensures
        sums_up(r@, rows@, message_id@, Some(viewer@)),
{
    summarise(rows, message_id, &Some(viewer.to_owned()))
}

/// The reactions to a message as they are told to all: no one in particular is among them.
pub fn load_reactions_anon(rows: &Vec<ReactionRow>, message_id: &str) -> (r: Vec<ReactionSummary>)
    requires
        rows@.len() <= i64::MAX,
    ensures
        sums_up(r@, rows@, message_id@, None),
{
    summarise(rows, message_id, &None)
}

/// Why the reaction is refused, where it is.
pub open spec fn reaction_refusal(
    perms: UserPermissions,
    req: ReactionRequest,
    found_in: Option<Seq<char>>,
    channel: Seq<char>,
) -> Option<HubRefusal> {
    let emoji = trimmed(req.emoji@);
    if perms.refusal(SEND_MESSAGES@) is Some {
        perms.refusal(SEND_MESSAGES@)
    } else if emoji.len() == 0 || emoji.len() > EMOJI_CHARS {
        Some(hub_refusal(400, "emoji must be 1..16 chars"@))
    } else {
        match found_in {
            None => Some(hub_refusal(404, "message not found"@)),
            Some(c) => if c != channel {
                Some(hub_refusal(404, "message not in channel"@))
            } else {
                None
            },
        }
    }
}

/// Whether the rows are the old ones with the reaction, which stands once.
pub open spec fn with_reaction(
    new: Seq<ReactionRow>,
    before: Seq<ReactionRow>,
    message: Seq<char>,
    emoji: Seq<char>,
    user: Seq<char>,
    now: i64,
) -> bool {
    if reacted(before, message, emoji, user) {
        new == before
    } else {
        &&& new.len() == before.len() + 1
        &&& new.drop_last() == before
        &&& new.last().message_id@ == message
        &&& new.last().emoji@ == emoji
        &&& new.last().user_key@ == user
        &&& new.last().created_at == now
    }
}

/// Reacts to a message, which was found in the given channel: what is told in the channel.
pub fn add_reaction(
    perms: &UserPermissions,
    rows: &mut Vec<ReactionRow>,
    req: &ReactionRequest,
    found_in: &Option<String>,
    user_key: &str,
    channel_id: &str,
    message_id: &str,
    now: i64,
) -> (r: Result<ChatEvent, HubError>)
    requires
        old(rows)@.len() < i64::MAX,
    ensures
        match reaction_refusal(*perms, *req, opt_text(*found_in), channel_id@) {
            Some(d) => refused(r, d) && final(rows)@ == old(rows)@,
            None => {
                &&& with_reaction(
                    final(rows)@,
                    old(rows)@,
                    message_id@,
                    trimmed(req.emoji@),
                    user_key@,
                    now,
                )
                &&& r matches Ok(ChatEvent::ReactionsUpdated {
                    channel_id: c,
                    message_id: m,
                    reactions,
                }) && c@ == channel_id@ && m@ == message_id@ && sums_up(
                    reactions@,
                    final(rows)@,
                    message_id@,
                    None,
                )
            },
        },
{
    match perms.require(SEND_MESSAGES) {
        Ok(_) => {},
        Err(e) => return Err(e),
    }
    let emoji = trim(req.emoji.as_str());
    let length: usize = chars_of(emoji.as_str()).len();
    if length == 0 || length > EMOJI_CHARS {
        return Err(refuse(400, "emoji must be 1..16 chars"));
    }
    match found_in {
        None => return Err(refuse(404, "message not found")),
        Some(c) => {
            if !same(c.as_str(), channel_id) {
                return Err(refuse(404, "message not in channel"));
            }
        },
    }
    let ghost before = rows@;
    if !has_reacted(rows, message_id, emoji.as_str(), user_key) {
        rows.push(
            ReactionRow {
                message_id: message_id.to_owned(),
                emoji,
                user_key: user_key.to_owned(),
                created_at: now,
            },
        );
        assert(rows@.drop_last() =~= before);
    }
    Ok(
        ChatEvent::ReactionsUpdated {
            channel_id: channel_id.to_owned(),
            message_id: message_id.to_owned(),
            reactions: load_reactions_anon(rows, message_id),
        },
    )
}

/// The reactions that are not the given one, as a condition.
pub open spec fn is_other(message: Seq<char>, emoji: Seq<char>, user: Seq<char>) -> spec_fn(
    ReactionRow,
) -> bool {
    |r: ReactionRow| !(r.message_id@ == message && r.emoji@ == emoji && r.user_key@ == user)
}

/// Takes a reaction back: what is told in the channel.
pub fn remove_reaction(
    rows: &mut Vec<ReactionRow>,
    user_key: &str,
    channel_id: &str,
    message_id: &str,
    emoji: &str,
) -> (e: ChatEvent)
    requires
        old(rows)@.len() <= i64::MAX,
    ensures
        final(rows)@ == old(rows)@.filter(is_other(message_id@, emoji@, user_key@)),
        e matches ChatEvent::ReactionsUpdated { channel_id: c, message_id: m, reactions } && c@
            == channel_id@ && m@ == message_id@ && sums_up(
            reactions@,
            final(rows)@,
            message_id@,
            None,
        ),
{
    let ghost p = is_other(message_id@, emoji@, user_key@);
    let other = |x: &ReactionRow| -> (b: bool)
        ensures
            b == is_other(message_id@, emoji@, user_key@)(*x),
    {
        !(same(x.message_id.as_str(), message_id) && same(x.emoji.as_str(), emoji) && same(
            x.user_key.as_str(),
            user_key,
        ))
    };
    proof {
        rows@.lemma_filter_len(p);
    }
    keep_rows(rows, other, Ghost(p));
    ChatEvent::ReactionsUpdated {
        channel_id: channel_id.to_owned(),
        message_id: message_id.to_owned(),
        reactions: load_reactions_anon(rows, message_id),
    }
}

/// Where all pass, all are left.
proof fn lemma_all_pass(rows: Seq<ReactionRow>, p: spec_fn(ReactionRow) -> bool)
    requires
        forall|i: int| 0 <= i < rows.len() ==> p(#[trigger] rows[i]),
    ensures
        rows.filter(p) == rows,
    decreases rows.len(),
{
    reveal(Seq::filter);
    if rows.len() > 0 {
        assert forall|i: int| 0 <= i < rows.drop_last().len() implies p(
            #[trigger] rows.drop_last()[i],
        ) by {
            assert(p(rows[i]));
        }
        lemma_all_pass(rows.drop_last(), p);
        assert(p(rows[rows.len() - 1]));
        assert(rows.drop_last().push(rows.last()) =~= rows);
    } else {
        assert(rows.filter(p) =~= rows);
    }
}

/// Taking a reaction back undoes it.
pub proof fn removing_undoes_reacting(
    after: Seq<ReactionRow>,
    before: Seq<ReactionRow>,
    message: Seq<char>,
    emoji: Seq<char>,
    user: Seq<char>,
    now: i64,
)
    requires
        !reacted(before, message, emoji, user),
        with_reaction(after, before, message, emoji, user, now),
    ensures
        after.filter(is_other(message, emoji, user)) == before,
{
    let p = is_other(message, emoji, user);
    assert forall|i: int| 0 <= i < before.len() implies p(#[trigger] before[i]) by {}
    lemma_all_pass(before, p);
    reveal(Seq::filter);
    assert(!p(after.last()));
}

/// Reacting twice is reacting once.
pub proof fn reacting_is_idempotent(
    once: Seq<ReactionRow>,
    twice: Seq<ReactionRow>,
    before: Seq<ReactionRow>,
    message: Seq<char>,
    emoji: Seq<char>,
    user: Seq<char>,
    now: i64,
    later: i64,
)
    requires
        with_reaction(once, before, message, emoji, user, now),
        with_reaction(twice, once, message, emoji, user, later),
    ensures
        twice == once,
{
    if !reacted(before, message, emoji, user) {
        let last = once.len() - 1;
        assert(once[last].message_id@ == message);
    }
    assert(reacted(once, message, emoji, user));
}

/// Whether nothing keeps the user from writing in the channel: they may send messages, no mute
/// of theirs holds, and they are not banned from the channel.
pub open spec fn may_write(f: SendFacts, user: Seq<char>, channel: Seq<char>, now: i64) -> bool {
    &&& allows(f.perms, "send_messages"@)
    &&& forall|i: int|
        0 <= i < f.mutes@.len() ==> !((#[trigger] f.mutes@[i]).target_public_key@ == user && (
        f.mutes@[i].expires_at is None || f.mutes@[i].expires_at->0 > now))
    &&& forall|i: int|
        0 <= i < f.channel_bans@.len() ==> !((#[trigger] f.channel_bans@[i]).channel_id@ == channel
            && f.channel_bans@[i].target_public_key@ == user)
}

/// The bytes of the attachments, added up.
pub open spec fn total_bytes(a: Seq<Attachment>) -> int {
    a.fold_left(0int, |n: int, x: Attachment| n + encode_utf8(x.data_b64@).len())
}

proof fn lemma_total_bytes(a: Seq<Attachment>)
    ensures
        total_bytes(a) == attached_bytes(a),
    decreases a.len(),
{
    if a.len() > 0 {
        lemma_total_bytes(a.drop_last());
    }
}

/// A message may be sent exactly where its sender may write in the channel, the channel is there,
/// the attachments together are within three megabytes, and what it answers, if anything, is a
/// message of the same channel.
pub proof fn who_may_write_may_send(
    f: &SendFacts,
    user: &str,
    channel: &str,
    req: &SendMessageRequest,
    now: i64,
    r: Result<(), HubError>,
)
    requires
        call_ensures(may_send, (f, user, channel, req, now), r),
    ensures
        r is Ok <==> may_write(*f, user@, channel@, now) && f.channel_exists && total_bytes(
            req.attachments@,
        ) <= 3145728 && (req.reply_to is Some ==> f.parent is Some && f.parent->0.channel_id@
            == channel@),
        !may_write(*f, user@, channel@, now) ==> r->Err_0.status == 403,
        may_write(*f, user@, channel@, now) && !f.channel_exists ==> r->Err_0.status == 404,
        may_write(*f, user@, channel@, now) && f.channel_exists && total_bytes(req.attachments@)
            > 3145728 ==> r->Err_0.status == 413,
{
    lemma_total_bytes(req.attachments@);
    lemma_may_is_allowed(f.perms, SEND_MESSAGES@);
}

/// What is sent is stored and told as it was written: by its sender, in the channel, for
/// everyone, from now on, with its attachments and what it answers. Only a command that failed is
/// not stored: what went wrong is told to its sender alone.
pub proof fn what_is_sent_is_what_was_written(
    f: &SendFacts,
    user: &str,
    channel: &str,
    req: SendMessageRequest,
    attachments_json: &str,
    command_error: Option<String>,
    id: &str,
    now: i64,
    allowed: Result<(), HubError>,
    r: Result<Sent, HubError>,
)
    requires
        call_ensures(may_send, (f, user, channel, &req, now), allowed),
        call_ensures(
            send_message,
            (f, user, channel, req, attachments_json, command_error, id, now),
            r,
        ),
    ensures
        r is Ok <==> allowed is Ok,
        r is Err ==> r->Err_0@ == allowed->Err_0@,
        r is Ok ==> (r->Ok_0 is Failed <==> req.content@.len() > 0 && req.content@[0] == '/'
            && command_error is Some),
        r is Ok && r->Ok_0 is Failed ==> ({
            let m = r->Ok_0->Failed_message;
            &&& m.content@ == command_error->0@
            &&& m.sender@ == user@
            &&& m.channel_id@ == channel@
            &&& m.visible_to_pubkey is Some && m.visible_to_pubkey->0@ == user@
            &&& m.id@ == id@
            &&& m.created_at == now && m.edited_at is None
            &&& m.attachments@.len() == 0 && m.reactions@.len() == 0 && m.reply_to is None
        }),
        r is Ok && r->Ok_0 is Stored ==> ({
            let m = r->Ok_0->Stored_message;
            let e = r->Ok_0->event;
            &&& m.id@ == id@
            &&& m.channel_id@ == channel@
            &&& m.sender@ == user@
            &&& opt_text(m.sender_name) == opt_text(f.sender_name)
            &&& m.content@ == req.content@
            &&& m.attachments == req.attachments
            &&& m.created_at == now
            &&& m.edited_at is None
            &&& m.reactions@.len() == 0
            &&& m.visible_to_pubkey is None
            &&& m.reply_to is Some <==> req.reply_to is Some
            &&& m.reply_to matches Some(c) ==> c.message_id@ == req.reply_to->0@ && c.sender@
                == f.parent->0.sender@
            &&& e.event_type@ == "message.created"@
            &&& opt_text(e.actor) == Some(user@)
            &&& opt_text(e.channel_id) == Some(channel@)
            &&& r->Ok_0->attachments is None <==> req.attachments@.len() == 0
            &&& r->Ok_0->attachments matches Some(j) ==> j@ == attachments_json@
        }),
{
    reveal_strlit("/");
    if req.content@.len() > 0 && req.content@[0] == '/' {
        assert("/"@ =~= req.content@.subrange(0, 1));
    }
    if is_command(req.content@) {
        assert(req.content@.subrange(0, 1)[0] == "/"@[0]);
    }
    assert(is_command(req.content@) <==> req.content@.len() > 0 && req.content@[0] == '/');
}

/// A reply shows who wrote the message that it answers, and of a long one the beginning only;
/// nothing of one that is gone.
pub proof fn a_reply_shows_what_it_answers(
    reply_to: &Option<String>,
    parent: &Option<ParentMessage>,
    c: Option<ReplyContext>,
)
    requires
        call_ensures(reply_context, (reply_to, parent), c),
    ensures
        c is Some <==> reply_to is Some && parent is Some,
        c matches Some(x) ==> x.message_id@ == reply_to->0@ && x.sender@ == parent->0.sender@
            && opt_text(x.sender_name) == opt_text(parent->0.sender_name) && opt_text(
            x.visible_to_pubkey,
        ) == opt_text(parent->0.visible_to_pubkey),
        c matches Some(x) ==> x.content_preview@.len() <= 140 && (parent->0.content@.len() <= 140
            ==> x.content_preview@ == parent->0.content@) && (parent->0.content@.len() > 140
            ==> x.content_preview@ == parent->0.content@.subrange(0, 140)),
{
}

/// What a message answers is shown to everyone where that message is for everyone, else to the
/// one whom it is for; the rest of the message is shown in any case.
pub proof fn what_is_answered_is_shown_to_whom_it_is_for(
    m: MessageResponse,
    viewer: &str,
    r: MessageResponse,
    may: bool,
)
    requires
        call_ensures(message_for, (m, viewer), r),
        call_ensures(may_see_answered, (&m, viewer), may),
    ensures
        r.reply_to is Some <==> m.reply_to is Some && (m.reply_to->0.visible_to_pubkey is None
            || m.reply_to->0.visible_to_pubkey->0@ == viewer@),
        r.reply_to is Some ==> r == m,
        r == (MessageResponse { reply_to: r.reply_to, ..m }),
        may <==> (m.reply_to is Some ==> r.reply_to is Some),
{
}

/// A message is edited by its sender alone, in its channel: the text is the new one and the time
/// of the edit is now; nothing else of it changes.
pub proof fn only_the_sender_edits(
    row: Option<MessageRow>,
    user: &str,
    channel: &str,
    req: EditMessageRequest,
    now: i64,
    r: Result<MessageRow, HubError>,
)
    requires
        call_ensures(edit_message, (row, user, channel, req, now), r),
    ensures
        r is Ok <==> row is Some && row->0.channel_id@ == channel@ && row->0.sender@ == user@,
        r matches Err(e) ==> e.status == if row is Some && row->0.channel_id@ == channel@ {
            403int
        } else {
            404
        },
        r matches Ok(m) ==> m.content == req.content && m.edited_at == Some(now) && m.id
            == row->0.id && m.channel_id == row->0.channel_id && m.sender == row->0.sender
            && m.created_at == row->0.created_at && m.reply_to == row->0.reply_to && m.attachments
            == row->0.attachments && m.visible_to_pubkey == row->0.visible_to_pubkey,
{
}

/// A message is deleted by its sender or by those who manage messages, in its channel, and the
/// channel is told which.
pub proof fn senders_and_managers_delete(
    row: &Option<MessageRow>,
    perms: &UserPermissions,
    user: &str,
    channel: &str,
    id: &str,
    r: Result<ChatEvent, HubError>,
)
    requires
        call_ensures(delete_message, (row, perms, user, channel, id), r),
    ensures
        r is Ok <==> row is Some && row->0.channel_id@ == channel@ && (row->0.sender@ == user@
            || allows(*perms, "manage_messages"@)),
        r matches Err(e) ==> e.status == if row is Some && row->0.channel_id@ == channel@ {
            403int
        } else {
            404
        },
        r matches Ok(e) ==> e matches ChatEvent::Deleted { channel_id, message_id } && channel_id@
            == channel@ && message_id@ == id@,
{
    lemma_may_is_allowed(*perms, MANAGE_MESSAGES@);
}

/// A search is for the words that were asked for, page by page; without words the page before
/// the message that was named is asked for, or else the latest. At most a hundred messages are
/// asked for, fifty where nothing is said.
pub proof fn what_is_asked_for_is_looked_for(
    p: &PaginationParams,
    viewer: &str,
    q: MessageQuery,
)
    requires
        call_ensures(message_query, (p, viewer), q),
    ensures
        q.viewer@ == viewer@,
        q.selection is Search <==> p.q is Some && trimmed(p.q->0@).len() > 0,
        q.selection matches Selection::Search { pattern, before, limit } ==> pattern@ == "%"@
            + trimmed(p.q->0@) + "%"@ && opt_text(before) == opt_text(p.before),
        q.selection is Before <==> (p.q is None || trimmed(p.q->0@).len() == 0) && p.before
            is Some,
        q.selection matches Selection::Before { id, .. } ==> id@ == p.before->0@,
        ({
            let limit = match q.selection {
                Selection::Search { limit, .. } => limit,
                Selection::Before { limit, .. } => limit,
                Selection::Latest { limit } => limit,
            };
            &&& p.limit is None ==> limit == 50
            &&& p.limit matches Some(n) ==> (n <= 100 ==> limit == n) && (n > 100 ==> limit == 100)
        }),
{
}

/// The messages that are listed are those that were found and are for everyone or for the
/// viewer, as they stand.
pub proof fn messages_are_listed_to_whom_they_are_for(
    found: Vec<MessageRow>,
    viewer: &str,
    r: Vec<MessageRow>,
    row: MessageRow,
)
    requires
        call_ensures(get_messages, (found, viewer), r),
    ensures
        r@.contains(row) <==> found@.contains(row) && (row.visible_to_pubkey is None
            || row.visible_to_pubkey->0@ == viewer@),
{
    lemma_kept(found@, is_shown_to(viewer@), row);
}

/// The reactions to the message with the emoji, as a condition.
pub open spec fn is_such(message: Seq<char>, emoji: Seq<char>) -> spec_fn(ReactionRow) -> bool {
    |r: ReactionRow| r.message_id@ == message && r.emoji@ == emoji
}

proof fn lemma_count_is_length(rows: Seq<ReactionRow>, message: Seq<char>, emoji: Seq<char>)
    ensures
        reaction_count(rows, message, emoji) == rows.filter(is_such(message, emoji)).len(),
    decreases rows.len(),
{
    reveal(Seq::filter);
    if rows.len() > 0 {
        lemma_count_is_length(rows.drop_last(), message, emoji);
    }
}

/// The emojis of the summaries are those with which someone reacted to the message, each once.
proof fn lemma_sums_up(
    s: Seq<ReactionSummary>,
    rows: Seq<ReactionRow>,
    message: Seq<char>,
    viewer: Option<Seq<char>>,
    emoji: Seq<char>,
)
    requires
        sums_up(s, rows, message, viewer),
    ensures
        (exists|i: int| 0 <= i < s.len() && (#[trigger] s[i]).emoji@ == emoji) <==> exists|j: int|
            0 <= j < rows.len() && (#[trigger] rows[j]).message_id@ == message && rows[j].emoji@
                == emoji,
        forall|i: int, j: int|
            0 <= i < j < s.len() ==> (#[trigger] s[i]).emoji@ != (#[trigger] s[j]).emoji@,
        forall|i: int|
            0 <= i < s.len() ==> (#[trigger] s[i]).count == rows.filter(
                is_such(message, s[i].emoji@),
            ).len(),
{
    let to = rows.filter(is_to(message));
    let e = emojis(to);
    let se = summary_emojis(s);
    deduped_is_a_set(e);
    assert(se.len() == s.len());
    assert forall|i: int| 0 <= i < s.len() implies se[i] == (#[trigger] s[i]).emoji@ by {}
    if exists|i: int| 0 <= i < s.len() && (#[trigger] s[i]).emoji@ == emoji {
        let i: int = choose|i: int| 0 <= i < s.len() && (#[trigger] s[i]).emoji@ == emoji;
        assert(se[i] == emoji);
        assert(deduped(e).contains(emoji));
        let j: int = choose|j: int| 0 <= j < e.len() && e[j] == emoji;
        assert(to.contains(to[j]));
        lemma_kept(rows, is_to(message), to[j]);
        let k: int = choose|k: int| 0 <= k < rows.len() && rows[k] == to[j];
        assert(rows[k].message_id@ == message && rows[k].emoji@ == emoji);
    }
    if exists|j: int|
        0 <= j < rows.len() && (#[trigger] rows[j]).message_id@ == message && rows[j].emoji@
            == emoji {
        let j: int = choose|j: int|
            0 <= j < rows.len() && (#[trigger] rows[j]).message_id@ == message && rows[j].emoji@
                == emoji;
        lemma_kept(rows, is_to(message), rows[j]);
        let k: int = choose|k: int| 0 <= k < to.len() && to[k] == rows[j];
        assert(e[k] == emoji);
        assert(deduped(e).contains(emoji));
        let i: int = choose|i: int| 0 <= i < se.len() && se[i] == emoji;
        assert(s[i].emoji@ == emoji);
    }
    assert forall|i: int, j: int| 0 <= i < j < s.len() implies (#[trigger] s[i]).emoji@ != (
    #[trigger] s[j]).emoji@ by {
        assert(se[i] == s[i].emoji@);
        assert(se[j] == s[j].emoji@);
    }
    assert forall|i: int| 0 <= i < s.len() implies (#[trigger] s[i]).count == rows.filter(
        is_such(message, s[i].emoji@),
    ).len() by {
        lemma_count_is_length(rows, message, s[i].emoji@);
    }
}

/// Every emoji with which someone reacted is summed up once, with how many did so, and whether
/// the viewer did; what is told to all says of no one that they did.
pub proof fn reactions_are_summed_up(
    rows: &Vec<ReactionRow>,
    message: &str,
    viewer: &str,
    s: Vec<ReactionSummary>,
    t: Vec<ReactionSummary>,
    i: int,
    emoji: Seq<char>,
)
    requires
        rows@.len() <= i64::MAX,
        call_ensures(load_reactions, (rows, message, viewer), s),
        call_ensures(load_reactions_anon, (rows, message), t),
    ensures
        (exists|k: int| 0 <= k < s@.len() && (#[trigger] s@[k]).emoji@ == emoji) <==> exists|j: int|
            0 <= j < rows@.len() && (#[trigger] rows@[j]).message_id@ == message@ && rows@[j].emoji@
                == emoji,
        forall|a: int, b: int|
            0 <= a < b < s@.len() ==> (#[trigger] s@[a]).emoji@ != (#[trigger] s@[b]).emoji@,
        0 <= i < s@.len() ==> s@[i].count == rows@.filter(is_such(message@, s@[i].emoji@)).len(),
        0 <= i < s@.len() ==> (s@[i].me <==> exists|j: int|
            0 <= j < rows@.len() && (#[trigger] rows@[j]).message_id@ == message@ && rows@[j].emoji@
                == s@[i].emoji@ && rows@[j].user_key@ == viewer@),
        t@.len() == s@.len(),
        0 <= i < t@.len() ==> t@[i].emoji@ == s@[i].emoji@ && t@[i].count == s@[i].count
            && !t@[i].me,
{
    lemma_sums_up(s@, rows@, message@, Some(viewer@), emoji);
    assert(summary_emojis(s@) == summary_emojis(t@));
    assert(summary_emojis(s@).len() == s@.len());
    assert(summary_emojis(t@).len() == t@.len());
    if 0 <= i < s@.len() {
        assert(summary_emojis(s@)[i] == s@[i].emoji@);
        assert(summary_emojis(t@)[i] == t@[i].emoji@);
    }
}

/// One who may send messages reacts to a message of the channel with one to sixteen characters:
/// the reaction stands once, and the channel is told how many now have it.
pub proof fn a_reaction_stands_once(
    perms: &UserPermissions,
    rows: &mut Vec<ReactionRow>,
    req: &ReactionRequest,
    found_in: &Option<String>,
    user: &str,
    channel: &str,
    message: &str,
    now: i64,
    r: Result<ChatEvent, HubError>,
)
    requires
        old(rows)@.len() < i64::MAX,
        call_ensures(
            add_reaction,
            (perms, rows, req, found_in, user, channel, message, now),
            r,
        ),
    ensures
        r is Ok <==> allows(*perms, "send_messages"@) && 1 <= trimmed(req.emoji@).len() <= 16
            && found_in is Some && found_in->0@ == channel@,
        r is Err ==> final(rows)@ == old(rows)@,
        r is Err && allows(*perms, "send_messages"@) ==> r->Err_0.status == if 1 <= trimmed(
            req.emoji@,
        ).len() <= 16 {
            404int
        } else {
            400
        },
        r is Ok ==> exists|i: int|
            0 <= i < final(rows)@.len() && (#[trigger] final(rows)@[i]).message_id@ == message@
                && final(rows)@[i].emoji@ == trimmed(req.emoji@) && final(rows)@[i].user_key@
                == user@,
        r is Ok && (exists|i: int|
            0 <= i < old(rows)@.len() && (#[trigger] old(rows)@[i]).message_id@ == message@ && old(rows)@[i].emoji@ == trimmed(req.emoji@) && old(rows)@[i].user_key@ == user@)
            ==> final(rows)@ == old(rows)@,
        forall|i: int|
            0 <= i < old(rows)@.len() ==> #[trigger] final(rows)@[i] == old(rows)@[i],
        r is Ok ==> r->Ok_0 is ReactionsUpdated && r->Ok_0->ReactionsUpdated_channel_id@ == channel@
            && r->Ok_0->ReactionsUpdated_message_id@ == message@ && exists|k: int|
            0 <= k < r->Ok_0->reactions@.len() && (#[trigger] r->Ok_0->reactions@[k]).emoji@
                == trimmed(req.emoji@) && r->Ok_0->reactions@[k].count == final(rows)@.filter(
                is_such(message@, trimmed(req.emoji@)),
            ).len(),
{
    lemma_may_is_allowed(*perms, SEND_MESSAGES@);
    let emoji = trimmed(req.emoji@);
    if r is Ok {
        if !reacted(old(rows)@, message@, emoji, user@) {
            let n = old(rows)@.len() as int;
            assert(final(rows)@[n] == final(rows)@.last());
            assert forall|i: int| 0 <= i < old(rows)@.len() implies #[trigger] final(rows)@[i]
                == old(rows)@[i] by {
                assert(final(rows)@.drop_last()[i] == final(rows)@[i]);
            }
        } else {
            let i: int = choose|i: int|
                0 <= i < old(rows)@.len() && (#[trigger] old(rows)@[i]).message_id@ == message@
                    && old(rows)@[i].emoji@ == emoji && old(rows)@[i].user_key@ == user@;
            assert(final(rows)@[i].emoji@ == emoji);
        }
        lemma_sums_up(r->Ok_0->reactions@, final(rows)@, message@, None, emoji);
    }
}

/// A reaction that is taken back is gone, and no other is; the channel is told what is left.
pub proof fn a_reaction_is_taken_back_alone(
    rows: &mut Vec<ReactionRow>,
    user: &str,
    channel: &str,
    message: &str,
    emoji: &str,
    e: ChatEvent,
    row: ReactionRow,
    other: Seq<char>,
)
    requires
        old(rows)@.len() <= i64::MAX,
        call_ensures(remove_reaction, (rows, user, channel, message, emoji), e),
    ensures
        final(rows)@.contains(row) <==> old(rows)@.contains(row) && !(row.message_id@ == message@
            && row.emoji@ == emoji@ && row.user_key@ == user@),
        e is ReactionsUpdated && e->ReactionsUpdated_channel_id@ == channel@
            && e->ReactionsUpdated_message_id@ == message@,
        (exists|k: int|
            0 <= k < e->reactions@.len() && (#[trigger] e->reactions@[k]).emoji@ == other)
            <==> exists|j: int|
            0 <= j < final(rows)@.len() && (#[trigger] final(rows)@[j]).message_id@ == message@
                && final(rows)@[j].emoji@ == other,
{
    lemma_kept(old(rows)@, is_other(message@, emoji@, user@), row);
    lemma_sums_up(e->reactions@, final(rows)@, message@, None, other);
}

/// A message is shown as it is stored.
pub proof fn a_message_is_shown_as_stored(
    row: MessageRow,
    attachments: Vec<Attachment>,
    reactions: Vec<ReactionSummary>,
    parent: &Option<ParentMessage>,
    m: MessageResponse,
)
    requires
        call_ensures(message_response, (row, attachments, reactions, parent), m),
    ensures
        m.id@ == row.id@,
        m.channel_id@ == row.channel_id@,
        m.sender@ == row.sender@,
        m.sender_name == row.sender_name,
        m.content@ == row.content@,
        m.created_at == row.created_at,
        m.edited_at == row.edited_at,
        m.attachments == attachments,
        m.reactions == reactions,
        m.visible_to_pubkey == row.visible_to_pubkey,
        m.reply_to is Some <==> row.reply_to is Some && parent is Some,
{
}

} // verus!
