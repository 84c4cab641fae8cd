//! Bots: those that a member creates and that hold a token, and those from outside that are
//! invited and hold a key.
use vstd::prelude::*;

use crate::codec::{
    all_hex, hex_bytes, hex_decode, hex_text, is_hex, is_json, json_of_strings, json_or, json_valid,
    sha256_digest, strings_from_json, strings_of_json, strings_to_json,
};
use crate::entropy::{is_random_uuid, new_id};
use crate::hub::chat_models::{ChatEvent, MessageResponse};
use crate::hub::events::Subscription;
use crate::hub::permissions::{
    allows, lemma_may_is_allowed, UserPermissions, ADMIN, MANAGE_ROLES,
};
use crate::hub::webhooks::{sha256_hex, token_hash};
use crate::hub::{
    claim_over, hub_refusal, is_claim, refuse, refuse_text, refused, HubError, HubRefusal,
    SignatureClaim,
};
use crate::rows::{
    find_id, find_row, first_match, is_not, is_row, keep_rows, lemma_filter_step,
    lemma_first_match, lemma_kept, lemma_match_holds, lemma_match_push, lemma_no_match, remove_id, Identified,
};
use crate::text::{
    begins_with, chars_of, concat3, contains_text, lowered, opt_text, same, starts_with,
    strip_prefix, texts, to_lowercase, trim, trimmed,
};
use vstd::utf8::encode_utf8;

verus! {

/// A question to the log of what happened.
pub struct AuditLogQuery {
    pub event_type: Option<String>,
    pub since: Option<i64>,
    pub until: Option<i64>,
    pub cursor: Option<i64>,
    pub limit: Option<i64>,
}

/// An entry of the log. The payload is JSON text.
pub struct AuditLogEntry {
    pub seq: i64,
    pub event_type: String,
    pub at: i64,
    pub actor_pubkey: Option<String>,
    pub target_pubkey: Option<String>,
    pub channel_id: Option<String>,
    pub payload: String,
}

/// A page of the log, and where the next one begins.
pub struct AuditLogResponse {
    pub entries: Vec<AuditLogEntry>,
    pub next_cursor: Option<i64>,
}

/// An entry of the log as it is stored.
pub struct AuditLogRow {
    pub seq: i64,
    pub event_type: String,
    pub at: i64,
    pub actor_pubkey: Option<String>,
    pub target_pubkey: Option<String>,
    pub channel_id: Option<String>,
    pub payload_json: String,
}

/// A bot with a token, of which only the hash is stored.
pub struct BotRow {
    pub public_key: String,
    pub display_name: String,
    pub created_by: String,
    pub token_hash: String,
    pub created_at: i64,
    pub webhook_url: Option<String>,
}

/// A command of a bot with a token, as it is stored.
pub struct SlashCommandRow {
    pub id: String,
    pub bot_pubkey: String,
    pub command: String,
    pub description: String,
    pub created_at: i64,
}

/// An event that waits for a bot to ask for it.
pub struct EventRow {
    pub id: String,
    pub bot_pubkey: String,
    pub event_type: String,
    pub payload: String,
    pub delivered: i64,
    pub created_at: i64,
}

pub struct CreateBotRequest {
    pub display_name: String,
}

pub struct BotAdminInfo {
    pub public_key: String,
    pub display_name: String,
    pub created_by: String,
    pub created_at: i64,
    pub webhook_url: Option<String>,
}

/// The one answer that holds the token.
pub struct BotCreatedResponse {
    pub public_key: String,
    pub display_name: String,
    pub created_by: String,
    pub created_at: i64,
    pub token: String,
}

pub struct SlashCommandInfo {
    pub command: String,
    pub description: String,
}

pub struct BotDetailResponse {
    pub public_key: String,
    pub display_name: String,
    pub created_by: String,
    pub created_at: i64,
    pub webhook_url: Option<String>,
    pub commands: Vec<SlashCommandInfo>,
}

pub struct SetWebhookRequest {
    pub webhook_url: Option<String>,
}

pub struct SetCommandsRequest {
    pub commands: Vec<CommandInput>,
}

pub struct CommandInput {
    pub command: String,
    pub description: String,
}

pub struct BotSendRequest {
    pub channel_id: String,
    pub content: String,
}

pub struct PollQuery {
    pub since: Option<i64>,
}

pub struct EventInfo {
    pub id: String,
    pub event_type: String,
    pub payload: String,
    pub created_at: i64,
}

pub struct AckRequest {
    pub ids: Vec<String>,
}

pub struct InviteBotRequest {
    pub pubkey: String,
    pub note: Option<String>,
}

pub struct InviteBotResponse {
    pub invite_token: String,
}

pub struct AcceptInviteRequest {
    pub pubkey: String,
    pub signature_over_token: String,
    pub bot_meta: BotMeta,
}

pub struct AcceptInviteResponse {
    pub status: String,
}

pub struct BotListEntry {
    pub pubkey: String,
    pub name: String,
    pub avatar_url: Option<String>,
    pub description: Option<String>,
    pub last_seen_at: Option<i64>,
    pub webhook_url: Option<String>,
    pub commands: Vec<BotCommandSummary>,
}

pub struct BotCommandSummary {
    pub name: String,
    pub description: String,
}

pub struct BotMeResponse {
    pub pubkey: String,
    pub name: String,
    pub avatar_url: Option<String>,
    pub description: Option<String>,
    pub webhook_url: Option<String>,
    pub homepage_url: Option<String>,
    pub capabilities: Vec<String>,
    pub commands: Vec<BotCommandDef>,
}

pub struct UpdateCommandsRequest {
    pub commands: Vec<BotCommandDef>,
}

pub struct UpdateSubscriptionsRequest {
    pub subscriptions: Vec<BotSubscription>,
}

pub struct SetSubscriptionsResponse {
    pub count: usize,
}

/// A command as a bot describes it.
pub struct BotCommandDef {
    pub name: String,
    pub description: String,
    pub args: Option<String>,
    pub scope: Option<String>,
    pub privileged: Option<bool>,
    pub cooldown_seconds: Option<i64>,
}

/// What a bot says of itself.
pub struct BotMeta {
    pub name: String,
    pub avatar_url: Option<String>,
    pub description: Option<String>,
    pub webhook_url: Option<String>,
    pub homepage_url: Option<String>,
    pub capabilities: Option<Vec<String>>,
    pub commands: Option<Vec<BotCommandDef>>,
}

/// That a bot wants to hear of an event, in some channels or everywhere.
pub struct BotSubscription {
    pub event: String,
    pub channels: Option<Vec<String>>,
}

/// The profile of a bot as it is stored. The capabilities are a JSON list.
pub struct BotProfileRow {
    pub pubkey: String,
    pub name: String,
    pub avatar_url: Option<String>,
    pub description: Option<String>,
    pub webhook_url: Option<String>,
    pub homepage_url: Option<String>,
    pub capabilities: String,
    pub updated_at: i64,
}

/// A command of a bot from outside, as it is stored.
pub struct BotCommandRow {
    pub pubkey: String,
    pub name: String,
    pub description: String,
    pub args: Option<String>,
    pub scope: String,
    pub privileged: i64,
    pub cooldown_seconds: i64,
}

/// The account of a bot.
pub struct BotAccount {
    pub public_key: String,
    pub display_name: Option<String>,
    pub first_seen_at: i64,
    pub last_seen_at: Option<i64>,
    pub approval_status: String,
    pub is_bot: i64,
    pub is_bot_removed: i64,
    pub bot_invite_token: Option<String>,
    pub bot_invite_expires: Option<i64>,
}

/// The hash under which a token is stored.
pub fn hash_token(token: &str) -> (r: String)
    ensures
        r@ == token_hash(token@),
{
    sha256_hex(token.as_bytes())
}

/// The bots that are stored under the hash, as a condition.
pub open spec fn is_under(hash: Seq<char>) -> spec_fn(BotRow) -> bool {
    |b: BotRow| b.token_hash@ == hash
}

/// The bot that is stored under the hash.
pub open spec fn bot_with_hash(bots: Seq<BotRow>, hash: Seq<char>) -> Option<BotRow> {
    first_match(bots, is_under(hash))
}

/// The bot that the header names by its token, or why there is none.
pub open spec fn bot_of_header(header: Option<Seq<char>>, bots: Seq<BotRow>) -> Result<
    BotRow,
    HubRefusal,
> {
    match header {
        Some(h) => if begins_with(h, "Bearer "@) {
            match bot_with_hash(bots, token_hash(h.skip("Bearer "@.len() as int))) {
                Some(b) => Ok(b),
                None => Err(hub_refusal(401, "Invalid bot token"@)),
            }
        } else {
            Err(hub_refusal(401, "Missing bot token"@))
        },
        None => Err(hub_refusal(401, "Missing bot token"@)),
    }
}

fn find_by_hash<'a>(bots: &'a Vec<BotRow>, hash: &str) -> (r: Option<&'a BotRow>)
    ensures
        match bot_with_hash(bots@, hash@) {
            Some(b) => r matches Some(x) && *x == b,
            None => r is None,
        },
{
    let test = |x: &BotRow| -> (b: bool)
        ensures
            b == is_under(hash@)(*x),
    {
        same(x.token_hash.as_str(), hash)
    };
    find_row(bots, test, Ghost(is_under(hash@)))
}

/// The bot that makes a request, by the token in its header.
pub fn authenticate_bot<'a>(header: &Option<String>, bots: &'a Vec<BotRow>) -> (r: Result<
    &'a BotRow,
    HubError,
>)
    ensures
        match bot_of_header(opt_text(*header), bots@) {
            Ok(b) => r matches Ok(x) && *x == b,
            Err(d) => refused(r, d),
        },
{
    match header {
        Some(h) => match strip_prefix(h.as_str(), "Bearer ") {
            Some(raw) => {
                let hash = hash_token(raw.as_str());
                match find_by_hash(bots, hash.as_str()) {
                    Some(b) => Ok(b),
                    None => Err(refuse(401, "Invalid bot token")),
                }
            },
            None => Err(refuse(401, "Missing bot token")),
        },
        None => Err(refuse(401, "Missing bot token")),
    }
}

/// A bot that was created: the account, the row with the hash, and the answer with the token.
pub struct CreatedBot {
    pub account: BotAccount,
    pub bot: BotRow,
    pub response: BotCreatedResponse,
}

/// Creates a bot under the given key with the given token.
pub fn admin_create_bot(
    creator: &str,
    req: &CreateBotRequest,
    public_key: &str,
    token: &str,
    now: i64,
) -> (r: Result<CreatedBot, HubError>)
    ensures
        if trimmed(req.display_name@).len() == 0 {
            refused(r, hub_refusal(400, "display_name cannot be empty"@))
        } else {
            r matches Ok(c) && ({
                let name = trimmed(req.display_name@);
                &&& c.account.public_key@ == public_key@
                &&& opt_text(c.account.display_name) == Some(name)
                &&& c.account.first_seen_at == now
                &&& c.account.last_seen_at == Some(now)
                &&& c.account.approval_status@ == "approved"@
                &&& c.account.is_bot == 1
                &&& c.account.is_bot_removed == 0
                &&& c.account.bot_invite_token is None
                &&& c.account.bot_invite_expires is None
                &&& c.bot.public_key@ == public_key@
                &&& c.bot.display_name@ == name
                &&& c.bot.created_by@ == creator@
                &&& c.bot.token_hash@ == token_hash(token@)
                &&& c.bot.created_at == now
                &&& c.bot.webhook_url is None
                &&& c.response.public_key@ == public_key@
                &&& c.response.display_name@ == name
                &&& c.response.created_by@ == creator@
                &&& c.response.created_at == now
                &&& c.response.token@ == token@
            })
        },
{
    let name = trim(req.display_name.as_str());
    if name.as_str().is_empty() {
        return Err(refuse(400, "display_name cannot be empty"));
    }
    Ok(
        CreatedBot {
            account: BotAccount {
                public_key: public_key.to_owned(),
                display_name: Some(name.clone()),
                first_seen_at: now,
                last_seen_at: Some(now),
                approval_status: "approved".to_owned(),
                is_bot: 1,
                is_bot_removed: 0,
                bot_invite_token: None,
                bot_invite_expires: None,
            },
            bot: BotRow {
                public_key: public_key.to_owned(),
                display_name: name.clone(),
                created_by: creator.to_owned(),
                token_hash: hash_token(token),
                created_at: now,
                webhook_url: None,
            },
            response: BotCreatedResponse {
                public_key: public_key.to_owned(),
                display_name: name,
                created_by: creator.to_owned(),
                created_at: now,
                token: token.to_owned(),
            },
        },
    )
}

/// The token that was handed out names the bot that was stored, as long as no earlier bot is
/// stored under the same hash.
pub proof fn created_token_authenticates(bots: Seq<BotRow>, bot: BotRow, token: Seq<char>)
    requires
        bot.token_hash@ == token_hash(token),
        bot_with_hash(bots, token_hash(token)) is None,
    ensures
        bot_of_header(Some("Bearer "@ + token), bots.push(bot)) == Ok::<BotRow, HubRefusal>(bot),
{
    let h = "Bearer "@ + token;
    assert(h.subrange(0, "Bearer "@.len() as int) =~= "Bearer "@);
    assert(h.skip("Bearer "@.len() as int) =~= token);
    lemma_match_push(bots, bot, is_under(token_hash(token)));
}

/// Whether the answer shows the bot, without its token.
pub open spec fn bot_shown(i: BotAdminInfo, b: BotRow) -> bool {
    &&& i.public_key == b.public_key
    &&& i.display_name == b.display_name
    &&& i.created_by == b.created_by
    &&& i.created_at == b.created_at
    &&& opt_text(i.webhook_url) == opt_text(b.webhook_url)
}

/// All bots, as they stand in the list.
pub fn admin_list_bots(rows: &Vec<BotRow>) -> (r: Vec<BotAdminInfo>)
    ensures
        r@.len() == rows@.len(),
        forall|i: int| 0 <= i < rows@.len() ==> bot_shown(#[trigger] r@[i], rows@[i]),
{
    let mut out: Vec<BotAdminInfo> = Vec::new();
    let mut i: usize = 0;
    while i < rows.len()
        invariant
            i <= rows@.len(),
            out@.len() == i,
            forall|k: int| 0 <= k < i ==> bot_shown(#[trigger] out@[k], rows@[k]),
        decreases rows@.len() - i,
    {
        let b = &rows[i];
        out.push(
            BotAdminInfo {
                public_key: b.public_key.clone(),
                display_name: b.display_name.clone(),
                created_by: b.created_by.clone(),
                created_at: b.created_at,
                webhook_url: b.webhook_url.clone(),
            },
        );
        i = i + 1;
    }
    out
}

/// A bot with its commands.
pub fn admin_get_bot(bot: Option<BotRow>, commands: &Vec<SlashCommandRow>) -> (r: Result<
    BotDetailResponse,
    HubError,
>)
    ensures
        match bot {
            None => refused(r, hub_refusal(404, "Bot not found"@)),
            Some(b) => r matches Ok(d) && d.public_key == b.public_key && d.display_name
                == b.display_name && d.created_by == b.created_by && d.created_at == b.created_at
                && d.webhook_url == b.webhook_url && d.commands@.len() == commands@.len() && (
            forall|i: int|
                0 <= i < commands@.len() ==> (#[trigger] d.commands@[i]).command
                    == commands@[i].command && d.commands@[i].description
                    == commands@[i].description),
        },
{
    match bot {
        None => Err(refuse(404, "Bot not found")),
        Some(b) => {
            let mut out: Vec<SlashCommandInfo> = Vec::new();
            let mut i: usize = 0;
            while i < commands.len()
                invariant
                    i <= commands@.len(),
                    out@.len() == i,
                    forall|k: int|
                        0 <= k < i ==> (#[trigger] out@[k]).command == commands@[k].command
                            && out@[k].description == commands@[k].description,
                decreases commands@.len() - i,
            {
                out.push(
                    SlashCommandInfo {
                        command: commands[i].command.clone(),
                        description: commands[i].description.clone(),
                    },
                );
                i = i + 1;
            }
            Ok(
                BotDetailResponse {
                    public_key: b.public_key,
                    display_name: b.display_name,
                    created_by: b.created_by,
                    created_at: b.created_at,
                    webhook_url: b.webhook_url,
                    commands: out,
                },
            )
        },
    }
}

/// Why the user may not change the bot, where they may not: it must be there, and be theirs
/// unless they are an admin.
pub open spec fn bot_change_refusal(
    bot: Option<BotRow>,
    user: Seq<char>,
    perms: UserPermissions,
) -> Option<HubRefusal> {
    match bot {
        None => Some(hub_refusal(404, "Bot not found"@)),
        Some(b) => if b.created_by@ == user {
            None
        } else {
            perms.refusal(ADMIN@)
        },
    }
}

fn may_change_bot(bot: &Option<BotRow>, user_key: &str, perms: &UserPermissions) -> (r: Result<
    (),
    HubError,
>)
    ensures
        match bot_change_refusal(*bot, user_key@, *perms) {
            Some(d) => refused(r, d),
            None => r is Ok,
        },
{
    match bot {
        None => Err(refuse(404, "Bot not found")),
        Some(b) => if same(b.created_by.as_str(), user_key) {
            Ok(())
        } else {
            perms.require(ADMIN)
        },
    }
}

impl Identified for BotRow {
    open spec fn row_id(&self) -> Seq<char> {
        self.public_key@
    }

    fn id_text(&self) -> (r: &str) {
        self.public_key.as_str()
    }
}

impl Identified for BotAccount {
    open spec fn row_id(&self) -> Seq<char> {
        self.public_key@
    }

    fn id_text(&self) -> (r: &str) {
        self.public_key.as_str()
    }
}

/// The commands of other bots, as a condition.
pub open spec fn is_other_command(bot: Seq<char>) -> spec_fn(SlashCommandRow) -> bool {
    |c: SlashCommandRow| c.bot_pubkey@ != bot
}

/// The events that wait for other bots, as a condition.
pub open spec fn is_other_event(bot: Seq<char>) -> spec_fn(EventRow) -> bool {
    |e: EventRow| e.bot_pubkey@ != bot
}

/// Deletes a bot: its row, its account, its commands and the events that wait for it go. The
/// answer has no content.
pub fn admin_delete_bot(
    bots: &mut Vec<BotRow>,
    accounts: &mut Vec<BotAccount>,
    commands: &mut Vec<SlashCommandRow>,
    events: &mut Vec<EventRow>,
    pubkey: &str,
    user_key: &str,
    perms: &UserPermissions,
) -> (r: Result<u16, HubError>)
    ensures
        match bot_change_refusal(
            first_match(old(bots)@, is_row(pubkey@)),
            user_key@,
            *perms,
        ) {
            Some(d) => refused(r, d) && final(bots)@ == old(bots)@ && final(accounts)@
                == old(accounts)@ && final(commands)@ == old(commands)@ && final(events)@ == old(
                events,
            )@,
            None => r == Ok::<u16, HubError>(204) && final(bots)@ == old(bots)@.filter(
                is_not(pubkey@),
            ) && final(accounts)@ == old(accounts)@.filter(is_not(pubkey@)) && final(commands)@
                == old(commands)@.filter(is_other_command(pubkey@)) && final(events)@ == old(
                events,
            )@.filter(is_other_event(pubkey@)),
        },
{
    match find_id(bots, pubkey) {
        None => return Err(refuse(404, "Bot not found")),
        Some(i) => {
            if !same(bots[i].created_by.as_str(), user_key) {
                match perms.require(ADMIN) {
                    Ok(_) => {},
                    Err(e) => return Err(e),
                }
            }
        },
    }
    remove_id(bots, pubkey);
    remove_id(accounts, pubkey);
    let other_command = |c: &SlashCommandRow| -> (b: bool)
        ensures
            b == (c.bot_pubkey@ != pubkey@),
    {
        !same(c.bot_pubkey.as_str(), pubkey)
    };
    keep_rows(commands, other_command, Ghost(is_other_command(pubkey@)));
    let other_event = |e: &EventRow| -> (b: bool)
        ensures
            b == (e.bot_pubkey@ != pubkey@),
    {
        !same(e.bot_pubkey.as_str(), pubkey)
    };
    keep_rows(events, other_event, Ghost(is_other_event(pubkey@)));
    Ok(204)
}

/// Sets or clears the address at which a bot is called: the row afterwards.
pub fn admin_set_webhook(
    bot: Option<BotRow>,
    user_key: &str,
    perms: &UserPermissions,
    req: SetWebhookRequest,
) -> (r: Result<BotRow, HubError>)
    ensures
        match bot_change_refusal(bot, user_key@, *perms) {
            Some(d) => refused(r, d),
            None => r matches Ok(b) && b == (BotRow { webhook_url: req.webhook_url, ..bot->0 }),
        },
{
    match may_change_bot(&bot, user_key, perms) {
        Ok(_) => {},
        Err(e) => return Err(e),
    }
    match bot {
        None => Err(refuse(404, "Bot not found")),
        Some(b) => {
            let mut b = b;
            b.webhook_url = req.webhook_url;
            Ok(b)
        },
    }
}

/// The word by which a command is called.
pub open spec fn command_word(c: CommandInput) -> Seq<char> {
    lowered(trimmed(c.command@))
}

/// The commands that have a word, as a condition.
pub open spec fn has_word() -> spec_fn(CommandInput) -> bool {
    |c: CommandInput| command_word(c).len() > 0
}

/// Whether the row stores the command, under an identifier that was drawn for it.
pub open spec fn slash_stored(
    row: SlashCommandRow,
    c: CommandInput,
    bot: Seq<char>,
    now: i64,
) -> bool {
    &&& is_random_uuid(row.id@)
    &&& row.bot_pubkey@ == bot
    &&& row.command@ == command_word(c)
    &&& row.description@ == trimmed(c.description@)
    &&& row.created_at == now
}

/// Replaces the commands of a bot: the rows to store in place of the old ones. A command
/// without a word is left out.
pub fn bot_set_commands(bot_pubkey: &str, req: &SetCommandsRequest, now: i64) -> (r: Vec<
    SlashCommandRow,
>)
    ensures
        r@.len() == req.commands@.filter(has_word()).len(),
        forall|i: int|
            0 <= i < r@.len() ==> slash_stored(
                #[trigger] r@[i],
                req.commands@.filter(has_word())[i],
                bot_pubkey@,
                now,
            ),
{
    let mut out: Vec<SlashCommandRow> = Vec::new();
    let mut i: usize = 0;
    assert(req.commands@.take(0) =~= Seq::<CommandInput>::empty());
    reveal(Seq::filter);
    while i < req.commands.len()
        invariant
            i <= req.commands@.len(),
            out@.len() == req.commands@.take(i as int).filter(has_word()).len(),
            forall|k: int|
                0 <= k < out@.len() ==> slash_stored(
                    #[trigger] out@[k],
                    req.commands@.take(i as int).filter(has_word())[k],
                    bot_pubkey@,
                    now,
                ),
        decreases req.commands@.len() - i,
    {
        proof {
            lemma_filter_step(req.commands@, has_word(), i as int);
        }
        let c = &req.commands[i];
        let word = to_lowercase(trim(c.command.as_str()).as_str());
        if !word.as_str().is_empty() {
            out.push(
                SlashCommandRow {
                    id: new_id(),
                    bot_pubkey: bot_pubkey.to_owned(),
                    command: word,
                    description: trim(c.description.as_str()),
                    created_at: now,
                },
            );
        }
        i = i + 1;
    }
    assert(req.commands@.take(req.commands@.len() as int) =~= req.commands@);
    out
}

/// Whether the message is the one that the bot sends.
pub open spec fn sent_by_bot(
    m: MessageResponse,
    bot: BotRow,
    req: BotSendRequest,
    id: Seq<char>,
    now: i64,
) -> bool {
    &&& m.id@ == id
    &&& m.channel_id@ == req.channel_id@
    &&& m.sender@ == bot.public_key@
    &&& opt_text(m.sender_name) == Some(bot.display_name@)
    &&& m.content@ == req.content@
    &&& m.created_at == now
    &&& m.edited_at is None
    &&& m.attachments@.len() == 0
    &&& m.reactions@.len() == 0
    &&& m.reply_to is None
    &&& m.visible_to_pubkey is None
}

/// Posts a message as the bot: what is stored and spread in the channel.
pub fn bot_send_message(
    bot: &BotRow,
    channel_exists: bool,
    req: &BotSendRequest,
    id: &str,
    now: i64,
) -> (r: Result<ChatEvent, HubError>)
    ensures
        if !channel_exists {
            refused(r, hub_refusal(404, "Channel not found"@))
        } else {
            r matches Ok(e) && e matches ChatEvent::New { channel_id, message } && channel_id@
                == req.channel_id@ && sent_by_bot(message, *bot, *req, id@, now)
        },
{
    if !channel_exists {
        return Err(refuse(404, "Channel not found"));
    }
    Ok(
        ChatEvent::New {
            channel_id: req.channel_id.clone(),
            message: MessageResponse {
                id: id.to_owned(),
                channel_id: req.channel_id.clone(),
                sender: bot.public_key.clone(),
                sender_name: Some(bot.display_name.clone()),
                content: req.content.clone(),
                created_at: now,
                edited_at: None,
                attachments: Vec::new(),
                reactions: Vec::new(),
                reply_to: None,
                visible_to_pubkey: None,
            },
        },
    )
}

/// The most events that one poll answers.
pub const POLL_LIMIT: usize = 100;

/// Whether the event waits for the bot and came after the moment.
pub open spec fn waits(e: EventRow, bot: Seq<char>, since: Option<i64>) -> bool {
    &&& e.bot_pubkey@ == bot
    &&& e.delivered == 0
    &&& match since {
        Some(t) => e.created_at > t,
        None => true,
    }
}

/// The events that wait, as a condition.
pub open spec fn is_waiting(bot: Seq<char>, since: Option<i64>) -> spec_fn(EventRow) -> bool {
    |e: EventRow| waits(e, bot, since)
}

/// Whether the answer tells of the event.
pub open spec fn event_told(i: EventInfo, e: EventRow) -> bool {
    &&& i.id == e.id
    &&& i.event_type == e.event_type
    &&& i.payload == e.payload
    &&& i.created_at == e.created_at
}

/// What waits for the bot, of a queue in the order of creation: the first hundred events.
pub fn bot_poll(queue: &Vec<EventRow>, bot_pubkey: &str, params: &PollQuery) -> (r: Vec<EventInfo>)
    ensures
        ({
            let w = queue@.filter(is_waiting(bot_pubkey@, params.since));
            &&& r@.len() == if w.len() < POLL_LIMIT {
                w.len()
            } else {
                POLL_LIMIT as nat
            }
            &&& forall|i: int| 0 <= i < r@.len() ==> event_told(#[trigger] r@[i], w[i])
        }),
{
    let mut out: Vec<EventInfo> = Vec::new();
    let ghost p = is_waiting(bot_pubkey@, params.since);
    let mut i: usize = 0;
    assert(queue@.take(0) =~= Seq::<EventRow>::empty());
    reveal(Seq::filter);
    while i < queue.len()
        invariant
            i <= queue@.len(),
            p == is_waiting(bot_pubkey@, params.since),
            out@.len() == if queue@.take(i as int).filter(p).len() < POLL_LIMIT {
                queue@.take(i as int).filter(p).len()
            } else {
                POLL_LIMIT as nat
            },
            forall|k: int|
                0 <= k < out@.len() ==> event_told(
                    #[trigger] out@[k],
                    queue@.take(i as int).filter(p)[k],
                ),
        decreases queue@.len() - i,
    {
        proof {
            lemma_filter_step(queue@, p, i as int);
        }
        let e = &queue[i];
        let late = match params.since {
            Some(t) => e.created_at > t,
            None => true,
        };
        if out.len() < POLL_LIMIT && late && e.delivered == 0 && same(
            e.bot_pubkey.as_str(),
            bot_pubkey,
        ) {
            out.push(
                EventInfo {
                    id: e.id.clone(),
                    event_type: e.event_type.clone(),
                    payload: e.payload.clone(),
                    created_at: e.created_at,
                },
            );
        }
        i = i + 1;
    }
    assert(queue@.take(queue@.len() as int) =~= queue@);
    out
}

/// The row after the bot acknowledged the events.
pub open spec fn acknowledged(
    new: EventRow,
    before: EventRow,
    bot: Seq<char>,
    ids: Seq<Seq<char>>,
) -> bool {
    if before.bot_pubkey@ == bot && ids.contains(before.id@) {
        new == (EventRow { delivered: 1, ..before })
    } else {
        new == before
    }
}

/// Acknowledges events: those of the bot that are named count as delivered.
pub fn bot_ack_events(queue: &mut Vec<EventRow>, bot_pubkey: &str, req: &AckRequest)
    ensures
        final(queue)@.len() == old(queue)@.len(),
        forall|i: int|
            0 <= i < old(queue)@.len() ==> acknowledged(
                #[trigger] final(queue)@[i],
                old(queue)@[i],
                bot_pubkey@,
                texts(req.ids@),
            ),
{
    let ghost before = queue@;
    let mut i: usize = 0;
    while i < queue.len()
        invariant
            i <= queue@.len(),
            queue@.len() == before.len(),
            forall|k: int| i <= k < before.len() ==> queue@[k] == before[k],
            forall|k: int|
                0 <= k < i ==> acknowledged(
                    #[trigger] queue@[k],
                    before[k],
                    bot_pubkey@,
                    texts(req.ids@),
                ),
        decreases queue@.len() - i,
    {
        if same(queue[i].bot_pubkey.as_str(), bot_pubkey) && contains_text(
            &req.ids,
            queue[i].id.as_str(),
        ) {
            queue[i].delivered = 1;
        }
        i = i + 1;
    }
}

/// An event that the bot acknowledged does not wait for it any more.
pub proof fn acknowledged_does_not_wait(
    new: EventRow,
    before: EventRow,
    bot: Seq<char>,
    ids: Seq<Seq<char>>,
    since: Option<i64>,
)
    requires
        acknowledged(new, before, bot, ids),
        ids.contains(before.id@),
    ensures
        !waits(new, bot, since),
{
}

/// Whether the row stores what the bot says of itself.
pub open spec fn profile_saved(p: BotProfileRow, m: BotMeta, pubkey: Seq<char>, now: i64) -> bool {
    &&& p.pubkey@ == pubkey
    &&& p.name@ == m.name@
    &&& opt_text(p.avatar_url) == opt_text(m.avatar_url)
    &&& opt_text(p.description) == opt_text(m.description)
    &&& opt_text(p.webhook_url) == opt_text(m.webhook_url)
    &&& opt_text(p.homepage_url) == opt_text(m.homepage_url)
    &&& p.capabilities@ == json_of_strings(capabilities_of(m))
    &&& strings_of_json(p.capabilities@) == Some(capabilities_of(m))
    &&& p.updated_at == now
}

/// The capabilities that the bot claims; none where it names none.
pub open spec fn capabilities_of(m: BotMeta) -> Seq<Seq<char>> {
    match m.capabilities {
        Some(c) => texts(c@),
        None => Seq::empty(),
    }
}

/// The profile to store for what the bot says of itself.
pub fn profile_row(pubkey: &str, meta: &BotMeta, now: i64) -> (p: BotProfileRow)
    ensures
        profile_saved(p, *meta, pubkey@, now),
{
    let capabilities = match &meta.capabilities {
        Some(c) => strings_to_json(c),
        None => {
            let none: Vec<String> = Vec::new();
            assert(texts(none@) =~= Seq::<Seq<char>>::empty());
            strings_to_json(&none)
        },
    };
    BotProfileRow {
        pubkey: pubkey.to_owned(),
        name: meta.name.clone(),
        avatar_url: meta.avatar_url.clone(),
        description: meta.description.clone(),
        webhook_url: meta.webhook_url.clone(),
        homepage_url: meta.homepage_url.clone(),
        capabilities,
        updated_at: now,
    }
}

/// Whether the row stores the command, with the defaults: it belongs to a channel, it is not
/// privileged, and three seconds pass between two uses.
pub open spec fn command_saved(row: BotCommandRow, c: BotCommandDef, pubkey: Seq<char>) -> bool {
    &&& row.pubkey@ == pubkey
    &&& row.name@ == c.name@
    &&& row.description@ == c.description@
    &&& opt_text(row.args) == opt_text(c.args)
    &&& row.scope@ == match c.scope {
        Some(s) => s@,
        None => "channel"@,
    }
    &&& row.privileged == if c.privileged == Some(true) {
        1i64
    } else {
        0
    }
    &&& row.cooldown_seconds == match c.cooldown_seconds {
        Some(n) => n,
        None => 3i64,
    }
}

/// Whether the rows store the commands, in order.
pub open spec fn commands_saved(
    rows: Seq<BotCommandRow>,
    c: Seq<BotCommandDef>,
    pubkey: Seq<char>,
) -> bool {
    &&& rows.len() == c.len()
    &&& forall|i: int| 0 <= i < c.len() ==> command_saved(#[trigger] rows[i], c[i], pubkey)
}

/// The rows to store for the commands of a bot.
pub fn command_rows(pubkey: &str, commands: &Vec<BotCommandDef>) -> (r: Vec<BotCommandRow>)
    ensures
        commands_saved(r@, commands@, pubkey@),
{
    let mut out: Vec<BotCommandRow> = Vec::new();
    let mut i: usize = 0;
    while i < commands.len()
        invariant
            i <= commands@.len(),
            out@.len() == i,
            forall|k: int|
                0 <= k < i ==> command_saved(#[trigger] out@[k], commands@[k], pubkey@),
        decreases commands@.len() - i,
    {
        let c = &commands[i];
        let scope: String = match &c.scope {
            Some(s) => s.clone(),
            None => "channel".to_owned(),
        };
        let privileged: i64 = match c.privileged {
            Some(p) => if p {
                1
            } else {
                0
            },
            None => 0,
        };
        let cooldown_seconds: i64 = match c.cooldown_seconds {
            Some(n) => n,
            None => 3,
        };
        out.push(
            BotCommandRow {
                pubkey: pubkey.to_owned(),
                name: c.name.clone(),
                description: c.description.clone(),
                args: c.args.clone(),
                scope,
                privileged,
                cooldown_seconds,
            },
        );
        i = i + 1;
    }
    out
}

/// Whether the text is a key: 64 hexadecimal digits.
pub open spec fn is_key(s: Seq<char>) -> bool {
    s.len() == 64 && all_hex(s)
}

fn looks_like_key(s: &str) -> (r: bool)
    ensures
        r == is_key(s@),
{
    let v = chars_of(s);
    if v.len() != 64 {
        return false;
    }
    let mut i: usize = 0;
    while i < v.len()
        invariant
            v@ == s@,
            i <= v@.len(),
            forall|k: int| 0 <= k < i ==> is_hex(#[trigger] v@[k]),
        decreases v@.len() - i,
    {
        let c = v[i];
        if !(('0' <= c && c <= '9') || ('a' <= c && c <= 'f') || ('A' <= c && c <= 'F')) {
            assert(!is_hex(s@[i as int]));
            return false;
        }
        i = i + 1;
    }
    true
}

/// Why a bot may not be invited, where it may not.
pub open spec fn invite_refusal(perms: UserPermissions, req: InviteBotRequest) -> Option<
    HubRefusal,
> {
    if perms.refusal(MANAGE_ROLES@) is Some {
        perms.refusal(MANAGE_ROLES@)
    } else if !is_key(req.pubkey@) {
        Some(hub_refusal(400, "pubkey must be 64 hex characters"@))
    } else {
        None
    }
}

/// Whether the account is the invited one: the one that was there, or a new one that waits,
/// with the token and a day to accept.
pub open spec fn invited(
    a: BotAccount,
    known: Option<BotAccount>,
    pubkey: Seq<char>,
    token: Seq<char>,
    now: i64,
) -> bool {
    &&& opt_text(a.bot_invite_token) == Some(token)
    &&& a.bot_invite_expires matches Some(t) && t == now + 86400
    &&& match known {
        Some(k) => a == (BotAccount {
            bot_invite_token: a.bot_invite_token,
            bot_invite_expires: a.bot_invite_expires,
            ..k
        }),
        None => {
            &&& a.public_key@ == pubkey
            &&& a.display_name is None
            &&& a.first_seen_at == now
            &&& a.last_seen_at == Some(now)
            &&& a.approval_status@ == "bot_pending"@
            &&& a.is_bot == 1
            &&& a.is_bot_removed == 0
        },
    }
}

/// Invites a bot from outside with the given token: its account afterwards, and the answer.
pub fn ext_invite_bot(
    perms: &UserPermissions,
    known: Option<BotAccount>,
    req: &InviteBotRequest,
    token: &str,
    now: i64,
) -> (r: Result<(BotAccount, InviteBotResponse), HubError>)
    requires
        now <= i64::MAX - 86400,
    ensures
        match invite_refusal(*perms, *req) {
            Some(d) => refused(r, d),
            None => r matches Ok(x) && invited(x.0, known, req.pubkey@, token@, now)
                && x.1.invite_token@ == token@,
        },
{
    match perms.require(MANAGE_ROLES) {
        Ok(_) => {},
        Err(e) => return Err(e),
    }
    if !looks_like_key(req.pubkey.as_str()) {
        return Err(refuse(400, "pubkey must be 64 hex characters"));
    }
    let mut account = match known {
        Some(k) => k,
        None => BotAccount {
            public_key: req.pubkey.clone(),
            display_name: None,
            first_seen_at: now,
            last_seen_at: Some(now),
            approval_status: "bot_pending".to_owned(),
            is_bot: 1,
            is_bot_removed: 0,
            bot_invite_token: None,
            bot_invite_expires: None,
        },
    };
    account.bot_invite_token = Some(token.to_owned());
    account.bot_invite_expires = Some(now + 86400);
    Ok((account, InviteBotResponse { invite_token: token.to_owned() }))
}

/// What the signature of a bot that accepts its invitation is held against: its key, and the
/// characters of the invitation's token.
pub fn invite_claim(req: &AcceptInviteRequest, token: &str) -> (c: Option<SignatureClaim>)
    ensures
        is_claim(
            c,
            req.pubkey@,
            Some(encode_utf8(token@)),
            hex_bytes(req.signature_over_token@),
        ),
{
    claim_over(req.pubkey.as_str(), token.as_bytes(), req.signature_over_token.as_str())
}

/// Why an invitation is not accepted, where it is not.
pub open spec fn accept_refusal(
    account: Option<BotAccount>,
    req: AcceptInviteRequest,
    signed: bool,
    now: i64,
) -> Option<HubRefusal> {
    match account {
        None => Some(hub_refusal(404, "Bot not found or not invited"@)),
        Some(a) => if a.is_bot != 1 {
            Some(hub_refusal(404, "Bot not found or not invited"@))
        } else if a.bot_invite_token is None {
            Some(hub_refusal(404, "No pending invite for this bot"@))
        } else if a.bot_invite_expires is Some && now > a.bot_invite_expires->0 {
            Some(hub_refusal(410, "Invite token has expired"@))
        } else if hex_bytes(req.signature_over_token@) is None {
            Some(hub_refusal(400, "Invalid signature hex"@))
        } else if !signed {
            Some(hub_refusal(401, "Invalid signature over invite token"@))
        } else {
            None
        },
    }
}

/// What an accepted invitation leads to: the approved account without the token, the profile,
/// the commands where the bot names some, and the answer.
pub struct AcceptedInvite {
    pub account: BotAccount,
    pub profile: BotProfileRow,
    pub commands: Option<Vec<BotCommandRow>>,
    pub response: AcceptInviteResponse,
}

/// Whether the commands are stored where the bot names some, and left alone where not.
pub open spec fn commands_replaced(
    rows: Option<Vec<BotCommandRow>>,
    m: BotMeta,
    pubkey: Seq<char>,
) -> bool {
    match m.commands {
        Some(c) => rows matches Some(v) && commands_saved(v@, c@, pubkey),
        None => rows is None,
    }
}

/// The rows that replace the commands, where the bot names some.
pub fn replaced_commands(pubkey: &str, meta: &BotMeta) -> (r: Option<Vec<BotCommandRow>>)
    ensures
        commands_replaced(r, *meta, pubkey@),
{
    match &meta.commands {
        Some(c) => Some(command_rows(pubkey, c)),
        None => None,
    }
}

/// Accepts an invitation, given whether the signature is that of the bot over the token.
pub fn ext_accept_invite(
    account: Option<BotAccount>,
    req: &AcceptInviteRequest,
    signed: bool,
    now: i64,
) -> (r: Result<AcceptedInvite, HubError>)
    ensures
        match accept_refusal(account, *req, signed, now) {
            Some(d) => refused(r, d),
            None => r matches Ok(x) && ({
                &&& x.account.approval_status@ == "approved"@
                &&& x.account == (BotAccount {
                    approval_status: x.account.approval_status,
                    bot_invite_token: None,
                    bot_invite_expires: None,
                    ..account->0
                })
                &&& profile_saved(x.profile, req.bot_meta, req.pubkey@, now)
                &&& commands_replaced(x.commands, req.bot_meta, req.pubkey@)
                &&& x.response.status@ == "accepted"@
            }),
        },
{
    match account {
        None => Err(refuse(404, "Bot not found or not invited")),
        Some(a) => {
            if a.is_bot != 1 {
                return Err(refuse(404, "Bot not found or not invited"));
            }
            if a.bot_invite_token.is_none() {
                return Err(refuse(404, "No pending invite for this bot"));
            }
            match a.bot_invite_expires {
                Some(t) => {
                    if now > t {
                        return Err(refuse(410, "Invite token has expired"));
                    }
                },
                None => {},
            }
            if hex_decode(req.signature_over_token.as_str()).is_none() {
                return Err(refuse(400, "Invalid signature hex"));
            }
            if !signed {
                return Err(refuse(401, "Invalid signature over invite token"));
            }
            let mut a = a;
            a.approval_status = "approved".to_owned();
            a.bot_invite_token = None;
            a.bot_invite_expires = None;
            Ok(
                AcceptedInvite {
                    account: a,
                    profile: profile_row(req.pubkey.as_str(), &req.bot_meta, now),
                    commands: replaced_commands(req.pubkey.as_str(), &req.bot_meta),
                    response: AcceptInviteResponse { status: "accepted".to_owned() },
                },
            )
        },
    }
}

/// A bot that was invited while unknown, and that signs the token within a day, is let in.
pub proof fn invitation_can_be_accepted(
    a: BotAccount,
    pubkey: Seq<char>,
    token: Seq<char>,
    invited_at: i64,
    req: AcceptInviteRequest,
    now: i64,
)
    requires
        invited(a, None, pubkey, token, invited_at),
        hex_bytes(req.signature_over_token@) is Some,
        now <= invited_at + 86400,
    ensures
        accept_refusal(Some(a), req, true, now) is None,
{
}

/// An invitation is good for one acceptance: afterwards there is none.
pub proof fn invitation_is_used_up(
    a: BotAccount,
    req: AcceptInviteRequest,
    signed: bool,
    now: i64,
)
    requires
        a.bot_invite_token is None,
    ensures
        accept_refusal(Some(a), req, signed, now) is Some,
{
}

/// The account after the bot under the key was removed.
pub open spec fn removed(new: BotAccount, before: BotAccount, pubkey: Seq<char>) -> bool {
    if before.public_key@ == pubkey && before.is_bot == 1 {
        new == (BotAccount { is_bot_removed: 1, ..before })
    } else {
        new == before
    }
}

/// Removes a bot from outside: its account stays, marked. The answer has no content.
pub fn ext_remove_bot(perms: &UserPermissions, accounts: &mut Vec<BotAccount>, pubkey: &str) -> (r:
    Result<u16, HubError>)
    ensures
        match perms.refusal(ADMIN@) {
            Some(d) => refused(r, d) && final(accounts)@ == old(accounts)@,
            None => {
                &&& r == Ok::<u16, HubError>(204)
                &&& final(accounts)@.len() == old(accounts)@.len()
                &&& forall|i: int|
                    0 <= i < old(accounts)@.len() ==> removed(
                        #[trigger] final(accounts)@[i],
                        old(accounts)@[i],
                        pubkey@,
                    )
            },
        },
{
    match perms.require(ADMIN) {
        Ok(_) => {},
        Err(e) => return Err(e),
    }
    let ghost before = accounts@;
    let mut i: usize = 0;
    while i < accounts.len()
        invariant
            i <= accounts@.len(),
            accounts@.len() == before.len(),
            forall|k: int| i <= k < before.len() ==> accounts@[k] == before[k],
            forall|k: int|
                0 <= k < i ==> removed(#[trigger] accounts@[k], before[k], pubkey@),
        decreases accounts@.len() - i,
    {
        if accounts[i].is_bot == 1 && same(accounts[i].public_key.as_str(), pubkey) {
            accounts[i].is_bot_removed = 1;
        }
        i = i + 1;
    }
    Ok(204)
}

/// The profiles of the bot, as a condition.
pub open spec fn is_profile_of(key: Seq<char>) -> spec_fn(BotProfileRow) -> bool {
    |p: BotProfileRow| p.pubkey@ == key
}

/// The profile of the bot.
pub open spec fn profile_of(profiles: Seq<BotProfileRow>, key: Seq<char>) -> Option<
    BotProfileRow,
> {
    first_match(profiles, is_profile_of(key))
}

fn find_profile<'a>(profiles: &'a Vec<BotProfileRow>, key: &str) -> (r: Option<&'a BotProfileRow>)
    ensures
        match profile_of(profiles@, key@) {
            Some(p) => r matches Some(x) && *x == p,
            None => r is None,
        },
{
    let test = |x: &BotProfileRow| -> (b: bool)
        ensures
            b == is_profile_of(key@)(*x),
    {
        same(x.pubkey.as_str(), key)
    };
    find_row(profiles, test, Ghost(is_profile_of(key@)))
}

/// The bots that are listed: not removed, and with a profile.
pub open spec fn is_listed(profiles: Seq<BotProfileRow>) -> spec_fn(BotAccount) -> bool {
    |a: BotAccount|
        a.is_bot == 1 && a.is_bot_removed == 0 && profile_of(profiles, a.public_key@) is Some
}

/// The commands of the bot, as a condition.
pub open spec fn is_of(key: Seq<char>) -> spec_fn(BotCommandRow) -> bool {
    |c: BotCommandRow| c.pubkey@ == key
}

/// Whether the summaries are those of the commands.
pub open spec fn summarised(s: Seq<BotCommandSummary>, c: Seq<BotCommandRow>) -> bool {
    &&& s.len() == c.len()
    &&& forall|i: int|
        0 <= i < c.len() ==> (#[trigger] s[i]).name == c[i].name && s[i].description
            == c[i].description
}

/// Whether the entry shows the bot.
pub open spec fn listed_as(
    e: BotListEntry,
    a: BotAccount,
    p: BotProfileRow,
    commands: Seq<BotCommandRow>,
) -> bool {
    &&& e.pubkey == a.public_key
    &&& e.name == p.name
    &&& opt_text(e.avatar_url) == opt_text(p.avatar_url)
    &&& opt_text(e.description) == opt_text(p.description)
    &&& e.last_seen_at == a.last_seen_at
    &&& opt_text(e.webhook_url) == opt_text(p.webhook_url)
    &&& summarised(e.commands@, commands.filter(is_of(a.public_key@)))
}

fn summaries(commands: &Vec<BotCommandRow>, key: &str) -> (r: Vec<BotCommandSummary>)
    ensures
        summarised(r@, commands@.filter(is_of(key@))),
{
    let mut out: Vec<BotCommandSummary> = Vec::new();
    let mut i: usize = 0;
    assert(commands@.take(0) =~= Seq::<BotCommandRow>::empty());
    reveal(Seq::filter);
    while i < commands.len()
        invariant
            i <= commands@.len(),
            summarised(out@, commands@.take(i as int).filter(is_of(key@))),
        decreases commands@.len() - i,
    {
        proof {
            lemma_filter_step(commands@, is_of(key@), i as int);
        }
        if same(commands[i].pubkey.as_str(), key) {
            out.push(
                BotCommandSummary {
                    name: commands[i].name.clone(),
                    description: commands[i].description.clone(),
                },
            );
        }
        i = i + 1;
    }
    assert(commands@.take(commands@.len() as int) =~= commands@);
    out
}

/// The bots from outside, each with its commands.
pub fn ext_list_bots(
    accounts: &Vec<BotAccount>,
    profiles: &Vec<BotProfileRow>,
    commands: &Vec<BotCommandRow>,
) -> (r: Vec<BotListEntry>)
    ensures
        ({
            let l = accounts@.filter(is_listed(profiles@));
            &&& r@.len() == l.len()
            &&& forall|i: int|
                0 <= i < l.len() ==> listed_as(
                    #[trigger] r@[i],
                    l[i],
                    profile_of(profiles@, l[i].public_key@)->0,
                    commands@,
                )
        }),
{
    let mut out: Vec<BotListEntry> = Vec::new();
    let ghost p = is_listed(profiles@);
    let mut i: usize = 0;
    assert(accounts@.take(0) =~= Seq::<BotAccount>::empty());
    reveal(Seq::filter);
    while i < accounts.len()
        invariant
            i <= accounts@.len(),
            p == is_listed(profiles@),
            out@.len() == accounts@.take(i as int).filter(p).len(),
            forall|k: int|
                0 <= k < out@.len() ==> listed_as(
                    #[trigger] out@[k],
                    accounts@.take(i as int).filter(p)[k],
                    profile_of(
                        profiles@,
                        accounts@.take(i as int).filter(p)[k].public_key@,
                    )->0,
                    commands@,
                ),
        decreases accounts@.len() - i,
    {
        proof {
            lemma_filter_step(accounts@, p, i as int);
        }
        let a = &accounts[i];
        if a.is_bot == 1 && a.is_bot_removed == 0 {
            match find_profile(profiles, a.public_key.as_str()) {
                Some(row) => {
                    out.push(
                        BotListEntry {
                            pubkey: a.public_key.clone(),
                            name: row.name.clone(),
                            avatar_url: row.avatar_url.clone(),
                            description: row.description.clone(),
                            last_seen_at: a.last_seen_at,
                            webhook_url: row.webhook_url.clone(),
                            commands: summaries(commands, a.public_key.as_str()),
                        },
                    );
                },
                None => {},
            }
        }
        i = i + 1;
    }
    assert(accounts@.take(accounts@.len() as int) =~= accounts@);
    out
}

/// A bot that was removed is not listed.
pub proof fn removed_is_not_listed(
    new: BotAccount,
    before: BotAccount,
    pubkey: Seq<char>,
    profiles: Seq<BotProfileRow>,
)
    requires
        removed(new, before, pubkey),
        before.public_key@ == pubkey,
    ensures
        !is_listed(profiles)(new),
{
}

/// Why the caller cannot act as a bot, where they cannot.
pub open spec fn not_a_bot(is_bot: Option<i64>) -> Option<HubRefusal> {
    if is_bot == Some(1i64) {
        None
    } else {
        Some(hub_refusal(403, "Not a bot identity"@))
    }
}

fn require_bot(is_bot: Option<i64>) -> (r: Result<(), HubError>)
    ensures
        match not_a_bot(is_bot) {
            Some(d) => refused(r, d),
            None => r is Ok,
        },
{
    match is_bot {
        Some(n) => if n == 1 {
            return Ok(());
        },
        None => {},
    }
    Err(refuse(403, "Not a bot identity"))
}

/// Whether the command is the stored one.
pub open spec fn command_read(d: BotCommandDef, row: BotCommandRow) -> bool {
    &&& d.name == row.name
    &&& d.description == row.description
    &&& opt_text(d.args) == opt_text(row.args)
    &&& opt_text(d.scope) == Some(row.scope@)
    &&& d.privileged == Some(row.privileged != 0)
    &&& d.cooldown_seconds == Some(row.cooldown_seconds)
}

/// The capabilities that the stored text holds; none where it cannot be read.
pub open spec fn read_capabilities(text: Seq<char>) -> Seq<Seq<char>> {
    match strings_of_json(text) {
        Some(c) => c,
        None => Seq::empty(),
    }
}

/// Whether the answer shows the bot its own profile and commands.
pub open spec fn me_shown(m: BotMeResponse, p: BotProfileRow, c: Seq<BotCommandRow>) -> bool {
    &&& m.pubkey == p.pubkey
    &&& m.name == p.name
    &&& opt_text(m.avatar_url) == opt_text(p.avatar_url)
    &&& opt_text(m.description) == opt_text(p.description)
    &&& opt_text(m.webhook_url) == opt_text(p.webhook_url)
    &&& opt_text(m.homepage_url) == opt_text(p.homepage_url)
    &&& texts(m.capabilities@) == read_capabilities(p.capabilities@)
    &&& m.commands@.len() == c.len()
    &&& forall|i: int| 0 <= i < c.len() ==> command_read(#[trigger] m.commands@[i], c[i])
}

/// The profile of the bot that asks, with its commands.
pub fn ext_bot_me(
    is_bot: Option<i64>,
    profile: &Option<BotProfileRow>,
    commands: &Vec<BotCommandRow>,
) -> (r: Result<BotMeResponse, HubError>)
    ensures
        match not_a_bot(is_bot) {
            Some(d) => refused(r, d),
            None => match profile {
                None => refused(r, hub_refusal(404, "Bot profile not found"@)),
                Some(p) => r matches Ok(m) && me_shown(m, *p, commands@),
            },
        },
{
    match require_bot(is_bot) {
        Ok(_) => {},
        Err(e) => return Err(e),
    }
    match profile {
        None => Err(refuse(404, "Bot profile not found")),
        Some(p) => {
            let mut out: Vec<BotCommandDef> = Vec::new();
            let mut i: usize = 0;
            while i < commands.len()
                invariant
                    i <= commands@.len(),
                    out@.len() == i,
                    forall|k: int|
                        0 <= k < i ==> command_read(#[trigger] out@[k], commands@[k]),
                decreases commands@.len() - i,
            {
                let c = &commands[i];
                out.push(
                    BotCommandDef {
                        name: c.name.clone(),
                        description: c.description.clone(),
                        args: c.args.clone(),
                        scope: Some(c.scope.clone()),
                        privileged: Some(c.privileged != 0),
                        cooldown_seconds: Some(c.cooldown_seconds),
                    },
                );
                i = i + 1;
            }
            let capabilities: Vec<String> = match strings_from_json(p.capabilities.as_str()) {
                Some(c) => c,
                None => {
                    let none: Vec<String> = Vec::new();
                    assert(texts(none@) =~= Seq::<Seq<char>>::empty());
                    none
                },
            };
            Ok(
                BotMeResponse {
                    pubkey: p.pubkey.clone(),
                    name: p.name.clone(),
                    avatar_url: p.avatar_url.clone(),
                    description: p.description.clone(),
                    webhook_url: p.webhook_url.clone(),
                    homepage_url: p.homepage_url.clone(),
                    capabilities,
                    commands: out,
                },
            )
        },
    }
}

/// Replaces the profile of the bot that asks: the row to store, and the answer, which shows it
/// with the commands that stand. What is stored of the capabilities reads back as they were
/// given.
pub fn ext_update_bot_profile(
    is_bot: Option<i64>,
    user_key: &str,
    meta: &BotMeta,
    commands: &Vec<BotCommandRow>,
    now: i64,
) -> (r: Result<(BotProfileRow, BotMeResponse), HubError>)
    ensures
        match not_a_bot(is_bot) {
            Some(d) => refused(r, d),
            None => r matches Ok(x) && profile_saved(x.0, *meta, user_key@, now) && me_shown(
                x.1,
                x.0,
                commands@,
            ) && texts(x.1.capabilities@) == capabilities_of(*meta),
        },
{
    match require_bot(is_bot) {
        Ok(_) => {},
        Err(e) => return Err(e),
    }
    let saved = Some(profile_row(user_key, meta, now));
    match ext_bot_me(is_bot, &saved, commands) {
        Ok(me) => match saved {
            Some(p) => Ok((p, me)),
            None => Err(refuse(404, "Bot profile not found")),
        },
        Err(e) => Err(e),
    }
}

/// Replaces the commands of the bot that asks: the rows to store in place of the old ones.
pub fn ext_update_bot_commands(
    is_bot: Option<i64>,
    user_key: &str,
    req: &UpdateCommandsRequest,
) -> (r: Result<Vec<BotCommandRow>, HubError>)
    ensures
        match not_a_bot(is_bot) {
            Some(d) => refused(r, d),
            None => r matches Ok(rows) && commands_saved(rows@, req.commands@, user_key@),
        },
{
    match require_bot(is_bot) {
        Ok(_) => Ok(command_rows(user_key, &req.commands)),
        Err(e) => Err(e),
    }
}

/// Whether the subscription needs its channels named: one to messages does, but for mentions
/// of the bot.
pub open spec fn needs_channels(event: Seq<char>) -> bool {
    begins_with(event, "message."@) && event != "message.mention_bot"@
}

/// Whether the subscription names a channel.
pub open spec fn names_channels(s: BotSubscription) -> bool {
    s.channels matches Some(c) && c@.len() > 0
}

/// What is wrong with the first subscription that does not name the channels it needs.
pub open spec fn subscription_fault(s: Seq<BotSubscription>) -> Option<Seq<char>>
    decreases s.len(),
{
    if s.len() == 0 {
        None
    } else if subscription_fault(s.drop_last()) is Some {
        subscription_fault(s.drop_last())
    } else if needs_channels(s.last().event@) && !names_channels(s.last()) {
        Some("Subscription '"@ + s.last().event@ + "' requires an explicit channels list"@)
    } else {
        None
    }
}

/// The channels of a subscription; the empty text stands for everywhere.
pub open spec fn channels_of(s: BotSubscription) -> Seq<Seq<char>> {
    if names_channels(s) {
        texts(s.channels->0@)
    } else {
        seq![Seq::<char>::empty()]
    }
}

/// The pairs of event and channel that the subscriptions ask for, in order.
pub open spec fn asked_pairs(s: Seq<BotSubscription>) -> Seq<(Seq<char>, Seq<char>)>
    decreases s.len(),
{
    if s.len() == 0 {
        Seq::empty()
    } else {
        asked_pairs(s.drop_last()) + channels_of(s.last()).map_values(
            |c: Seq<char>| (s.last().event@, c),
        )
    }
}

/// The pairs of event and channel in the rows.
pub open spec fn row_pairs(r: Seq<Subscription>) -> Seq<(Seq<char>, Seq<char>)> {
    r.map_values(|x: Subscription| (x.event_type@, x.channel_id@))
}

proof fn lemma_fault_stays(s: Seq<BotSubscription>, i: int)
    requires
        0 <= i <= s.len(),
        subscription_fault(s.take(i)) is Some,
    ensures
        subscription_fault(s) == subscription_fault(s.take(i)),
    decreases s.len(),
{
    if i == s.len() {
        assert(s.take(i) =~= s);
    } else {
        assert(s.drop_last().take(i) =~= s.take(i));
        lemma_fault_stays(s.drop_last(), i);
    }
}

fn check_subscriptions(subs: &Vec<BotSubscription>) -> (r: Result<(), HubError>)
    ensures
        match subscription_fault(subs@) {
            Some(f) => refused(r, hub_refusal(400, f)),
            None => r is Ok,
        },
{
    let mut i: usize = 0;
    while i < subs.len()
        invariant
            i <= subs@.len(),
            subscription_fault(subs@.take(i as int)) is None,
        decreases subs@.len() - i,
    {
        assert(subs@.take(i as int + 1).drop_last() =~= subs@.take(i as int));
        let s = &subs[i];
        let named = match &s.channels {
            Some(c) => c.len() > 0,
            None => false,
        };
        if starts_with(s.event.as_str(), "message.") && !same(
            s.event.as_str(),
            "message.mention_bot",
        ) && !named {
            proof {
                lemma_fault_stays(subs@, i as int + 1);
            }
            return Err(
                refuse_text(
                    400,
                    concat3(
                        "Subscription '",
                        s.event.as_str(),
                        "' requires an explicit channels list",
                    ),
                ),
            );
        }
        i = i + 1;
    }
    assert(subs@.take(subs@.len() as int) =~= subs@);
    Ok(())
}

fn add_pair(out: &mut Vec<Subscription>, bot: &str, event: &str, channel: &str)
    requires
        forall|k: int| 0 <= k < old(out)@.len() ==> (#[trigger] old(out)@[k]).bot_pubkey@ == bot@,
    ensures
        row_pairs(final(out)@) == row_pairs(old(out)@).push((event@, channel@)),
        forall|k: int|
            0 <= k < final(out)@.len() ==> (#[trigger] final(out)@[k]).bot_pubkey@ == bot@,
{
    let ghost before = out@;
    out.push(
        Subscription {
            bot_pubkey: bot.to_owned(),
            event_type: event.to_owned(),
            channel_id: channel.to_owned(),
        },
    );
    assert(row_pairs(out@) =~= row_pairs(before).push((event@, channel@)));
    assert forall|k: int| 0 <= k < out@.len() implies (#[trigger] out@[k]).bot_pubkey@ == bot@ by {
        if k < before.len() {
            assert(out@[k] == before[k]);
        }
    }
}

/// Replaces the subscriptions of the bot that asks: the rows to store in place of the old
/// ones, and how many there are. A row that stands twice is stored once.
pub fn ext_update_bot_subscriptions(
    is_bot: Option<i64>,
    user_key: &str,
    req: &UpdateSubscriptionsRequest,
) -> (r: Result<(Vec<Subscription>, SetSubscriptionsResponse), HubError>)
    ensures
        match not_a_bot(is_bot) {
            Some(d) => refused(r, d),
            None => match subscription_fault(req.subscriptions@) {
                Some(f) => refused(r, hub_refusal(400, f)),
                None => r matches Ok(x) && row_pairs(x.0@) == asked_pairs(req.subscriptions@)
                    && x.1.count == x.0@.len() && (forall|k: int|
                    0 <= k < x.0@.len() ==> (#[trigger] x.0@[k]).bot_pubkey@ == user_key@),
            },
        },
{
    match require_bot(is_bot) {
        Ok(_) => {},
        Err(e) => return Err(e),
    }
    match check_subscriptions(&req.subscriptions) {
        Ok(_) => {},
        Err(e) => return Err(e),
    }
    let subs = &req.subscriptions;
    let mut out: Vec<Subscription> = Vec::new();
    assert(row_pairs(out@) =~= Seq::<(Seq<char>, Seq<char>)>::empty());
    let mut i: usize = 0;
    while i < subs.len()
        invariant
            i <= subs@.len(),
            row_pairs(out@) == asked_pairs(subs@.take(i as int)),
            forall|k: int| 0 <= k < out@.len() ==> (#[trigger] out@[k]).bot_pubkey@ == user_key@,
        decreases subs@.len() - i,
    {
        let s = &subs[i];
        let ghost sofar = asked_pairs(subs@.take(i as int));
        let ghost pairs = channels_of(*s).map_values(|c: Seq<char>| (s.event@, c));
        proof {
            assert(subs@.take(i as int + 1).drop_last() =~= subs@.take(i as int));
            assert(subs@.take(i as int + 1).last() == *s);
            assert(asked_pairs(subs@.take(i as int + 1)) =~= sofar + pairs);
        }
        let named = match &s.channels {
            Some(c) => c.len() > 0,
            None => false,
        };
        if named {
            match &s.channels {
                Some(channels) => {
                    let mut j: usize = 0;
                    assert(pairs.take(0) =~= Seq::<(Seq<char>, Seq<char>)>::empty());
                    assert(row_pairs(out@) =~= sofar + pairs.take(0));
                    while j < channels.len()
                        invariant
                            j <= channels@.len(),
                            pairs.len() == channels@.len(),
                            forall|k: int|
                                0 <= k < pairs.len() ==> #[trigger] pairs[k] == (
                                    s.event@,
                                    channels@[k]@,
                                ),
                            row_pairs(out@) == sofar + pairs.take(j as int),
                            forall|k: int|
                                0 <= k < out@.len() ==> (#[trigger] out@[k]).bot_pubkey@
                                    == user_key@,
                        decreases channels@.len() - j,
                    {
                        add_pair(&mut out, user_key, s.event.as_str(), channels[j].as_str());
                        assert((sofar + pairs.take(j as int)).push(pairs[j as int]) =~= sofar
                            + pairs.take(j as int + 1));
                        j = j + 1;
                    }
                    assert(pairs.take(pairs.len() as int) =~= pairs);
                },
                None => {},
            }
        } else {
            add_pair(&mut out, user_key, s.event.as_str(), "");
            proof {
                reveal_strlit("");
                assert(""@ =~= Seq::<char>::empty());
                assert(sofar.push((s.event@, Seq::<char>::empty())) =~= sofar + pairs);
            }
        }
        i = i + 1;
    }
    assert(subs@.take(subs@.len() as int) =~= subs@);
    let count: usize = out.len();
    Ok((out, SetSubscriptionsResponse { count }))
}

/// The most entries on a page: as asked, but at least one and at most two hundred; fifty where
/// nothing is asked.
pub open spec fn audit_limit(limit: Option<i64>) -> int {
    match limit {
        None => 50,
        Some(n) => if n > 200 {
            200
        } else if n < 1 {
            1
        } else {
            n as int
        },
    }
}

/// Whether the entry is asked for: after the cursor, within the time, and of the kind.
pub open spec fn audit_asked(r: AuditLogRow, q: AuditLogQuery) -> bool {
    &&& r.seq > match q.cursor {
        Some(c) => c,
        None => 0i64,
    }
    &&& r.at >= match q.since {
        Some(t) => t,
        None => 0i64,
    }
    &&& r.at <= match q.until {
        Some(t) => t,
        None => i64::MAX,
    }
    &&& match q.event_type {
        Some(e) => e@.len() == 0 || r.event_type@ == e@,
        None => true,
    }
}

/// The entries that are asked for, as a condition.
pub open spec fn is_asked(q: AuditLogQuery) -> spec_fn(AuditLogRow) -> bool {
    |r: AuditLogRow| audit_asked(r, q)
}

/// Whether the entry is the stored one. A payload that cannot be read is null.
pub open spec fn entry_shown(e: AuditLogEntry, r: AuditLogRow) -> bool {
    &&& e.seq == r.seq
    &&& e.event_type == r.event_type
    &&& e.at == r.at
    &&& opt_text(e.actor_pubkey) == opt_text(r.actor_pubkey)
    &&& opt_text(e.target_pubkey) == opt_text(r.target_pubkey)
    &&& opt_text(e.channel_id) == opt_text(r.channel_id)
    &&& e.payload@ == json_or(r.payload_json@, "null"@)
}

/// Whether the page is the first of what is asked for, and says whether more follows.
pub open spec fn is_audit_page(p: AuditLogResponse, asked: Seq<AuditLogRow>, limit: int) -> bool {
    &&& p.entries@.len() == if asked.len() < limit {
        asked.len() as int
    } else {
        limit
    }
    &&& forall|i: int|
        0 <= i < p.entries@.len() ==> entry_shown(#[trigger] p.entries@[i], asked[i])
    &&& p.next_cursor == if asked.len() > limit {
        Some(asked[limit - 1].seq)
    } else {
        None::<i64>
    }
}

/// A page of the log, whose rows stand in the order of their numbers.
pub fn admin_audit_log(
    perms: &UserPermissions,
    params: &AuditLogQuery,
    rows: &Vec<AuditLogRow>,
) -> (r: Result<AuditLogResponse, HubError>)
    ensures
        match perms.refusal(ADMIN@) {
            Some(d) => refused(r, d),
            None => r matches Ok(p) && is_audit_page(
                p,
                rows@.filter(is_asked(*params)),
                audit_limit(params.limit),
            ),
        },
{
    match perms.require(ADMIN) {
        Ok(_) => {},
        Err(e) => return Err(e),
    }
    let limit: usize = match params.limit {
        None => 50,
        Some(n) => if n > 200 {
            200
        } else if n < 1 {
            1
        } else {
            n as usize
        },
    };
    let cursor: i64 = match params.cursor {
        Some(c) => c,
        None => 0,
    };
    let since: i64 = match params.since {
        Some(t) => t,
        None => 0,
    };
    let until: i64 = match params.until {
        Some(t) => t,
        None => i64::MAX,
    };
    let mut entries: Vec<AuditLogEntry> = Vec::new();
    let mut more = false;
    let ghost p = is_asked(*params);
    let mut i: usize = 0;
    assert(rows@.take(0) =~= Seq::<AuditLogRow>::empty());
    reveal(Seq::filter);
    while i < rows.len()
        invariant
            i <= rows@.len(),
            1 <= limit,
            p == is_asked(*params),
            cursor == match params.cursor {
                Some(c) => c,
                None => 0i64,
            },
            since == match params.since {
                Some(t) => t,
                None => 0i64,
            },
            until == match params.until {
                Some(t) => t,
                None => i64::MAX,
            },
            entries@.len() == if rows@.take(i as int).filter(p).len() < limit {
                rows@.take(i as int).filter(p).len() as int
            } else {
                limit as int
            },
            more == (rows@.take(i as int).filter(p).len() > limit),
            forall|k: int|
                0 <= k < entries@.len() ==> entry_shown(
                    #[trigger] entries@[k],
                    rows@.take(i as int).filter(p)[k],
                ),
        decreases rows@.len() - i,
    {
        proof {
            lemma_filter_step(rows@, p, i as int);
        }
        let row = &rows[i];
        let kind = match &params.event_type {
            Some(e) => e.as_str().is_empty() || same(row.event_type.as_str(), e.as_str()),
            None => true,
        };
        if row.seq > cursor && row.at >= since && row.at <= until && kind {
            if entries.len() < limit {
                let payload: String = if json_valid(row.payload_json.as_str()) {
                    row.payload_json.clone()
                } else {
                    "null".to_owned()
                };
                entries.push(
                    AuditLogEntry {
                        seq: row.seq,
                        event_type: row.event_type.clone(),
                        at: row.at,
                        actor_pubkey: row.actor_pubkey.clone(),
                        target_pubkey: row.target_pubkey.clone(),
                        channel_id: row.channel_id.clone(),
                        payload,
                    },
                );
            } else {
                more = true;
            }
        }
        i = i + 1;
    }
    assert(rows@.take(rows@.len() as int) =~= rows@);
    let next_cursor: Option<i64> = if more {
        Some(entries[limit - 1].seq)
    } else {
        None
    };
    Ok(AuditLogResponse { entries, next_cursor })
}

/// Whether the numbers of the rows increase.
pub open spec fn numbers_increase(rows: Seq<AuditLogRow>) -> bool {
    forall|i: int, j: int|
        0 <= i < j < rows.len() ==> (#[trigger] rows[i]).seq < (#[trigger] rows[j]).seq
}

/// Whether the second question is the first one, asked again from the cursor on.
pub open spec fn goes_on(next: AuditLogQuery, q: AuditLogQuery, cursor: i64) -> bool {
    &&& next.cursor == Some(cursor)
    &&& next.since == q.since
    &&& next.until == q.until
    &&& opt_text(next.event_type) == opt_text(q.event_type)
}

/// Asking again from the cursor of a page gives what comes after that page, no entry missing
/// and none twice.
pub proof fn audit_pages_join(
    rows: Seq<AuditLogRow>,
    q: AuditLogQuery,
    next: AuditLogQuery,
    k: int,
)
    requires
        numbers_increase(rows),
        0 <= k < rows.filter(is_asked(q)).len(),
        goes_on(next, q, rows.filter(is_asked(q))[k].seq),
    ensures
        rows.filter(is_asked(next)) == rows.filter(is_asked(q)).skip(k + 1),
    decreases rows.len(),
{
    reveal(Seq::filter);
    let p = is_asked(q);
    let n = is_asked(next);
    let m = rows.filter(p);
    if rows.len() > 0 {
        let front = rows.drop_last();
        let x = rows.last();
        let m0 = front.filter(p);
        assert(rows =~= front.push(x));
        assert(m == if p(x) {
            m0.push(x)
        } else {
            m0
        });
        assert forall|i: int, j: int| 0 <= i < j < front.len() implies (#[trigger] front[i]).seq < (
        #[trigger] front[j]).seq by {
            assert(rows[i].seq < rows[j].seq);
        }
        assert forall|r: AuditLogRow| front.contains(r) implies #[trigger] r.seq < x.seq by {
            let i = choose|i: int| 0 <= i < front.len() && front[i] == r;
            assert(rows[i].seq < rows[rows.len() - 1].seq);
        }
        front.lemma_filter_len(p);
        if k < m0.len() {
            assert(m[k] == m0[k]);
            front.lemma_filter_pred(p, k);
            assert(m0.contains(m0[k]));
            front.lemma_filter_contains_rev(p, m0[k]);
            assert(m0[k].seq < x.seq);
            audit_pages_join(front, q, next, k);
            if p(x) {
                assert(n(x));
                assert(m.skip(k + 1) =~= m0.skip(k + 1).push(x));
            } else {
                assert(!n(x));
            }
        } else {
            assert(m[k] == x);
            lemma_none_pass(front, n);
            assert(!n(x));
            assert(m.skip(k + 1) =~= Seq::<AuditLogRow>::empty());
        }
    }
}

/// Where nothing passes, nothing is left.
proof fn lemma_none_pass(rows: Seq<AuditLogRow>, p: spec_fn(AuditLogRow) -> bool)
    requires
        forall|i: int| 0 <= i < rows.len() ==> !p(#[trigger] rows[i]),
    ensures
        rows.filter(p) == Seq::<AuditLogRow>::empty(),
    decreases rows.len(),
{
    reveal(Seq::filter);
    if rows.len() > 0 {
        assert forall|i: int| 0 <= i < rows.drop_last().len() implies !p(
            #[trigger] rows.drop_last()[i],
        ) by {
            assert(!p(rows[i]));
        }
        lemma_none_pass(rows.drop_last(), p);
        assert(!p(rows[rows.len() - 1]));
    }
}

/// A bot that is created has the trimmed name that was asked for, belongs to its creator, is an
/// approved bot, and is handed its token once: the header with the token then names this bot.
pub proof fn a_created_bot_can_authenticate(
    creator: &str,
    req: &CreateBotRequest,
    key: &str,
    token: &str,
    now: i64,
    r: Result<CreatedBot, HubError>,
    bots: &Vec<BotRow>,
    header: &Option<String>,
    who: Result<&BotRow, HubError>,
)
    requires
        call_ensures(admin_create_bot, (creator, req, key, token, now), r),
        r is Ok ==> bots@ == seq![r->Ok_0.bot],
        call_ensures(authenticate_bot, (header, bots), who),
    ensures
        r is Ok <==> trimmed(req.display_name@).len() > 0,
        r matches Err(e) ==> e.status == 400,
        r matches Ok(c) ==> ({
            &&& c.bot.public_key@ == key@ && c.account.public_key@ == key@
            &&& c.response.public_key@ == key@
            &&& c.bot.display_name@ == trimmed(req.display_name@)
            &&& opt_text(c.account.display_name) == Some(trimmed(req.display_name@))
            &&& c.response.display_name@ == trimmed(req.display_name@)
            &&& c.bot.created_by@ == creator@ && c.response.created_by@ == creator@
            &&& c.bot.created_at == now && c.account.first_seen_at == now
            &&& c.account.approval_status@ == "approved"@
            &&& c.account.is_bot == 1 && c.account.is_bot_removed == 0
            &&& c.response.token@ == token@
            &&& c.bot.webhook_url is None
            &&& c.account.last_seen_at == Some(now) && c.response.created_at == now
            &&& c.account.bot_invite_token is None && c.account.bot_invite_expires is None
            &&& c.bot.token_hash@ == hex_text(sha256_digest(encode_utf8(token@)))
        }),
        r is Ok && header is Some && header->0@ == "Bearer "@ + token@ ==> who is Ok
            && who->Ok_0.public_key@ == key@,
        header is None ==> who is Err && who->Err_0.status == 401,
        header is Some && !"Bearer "@.is_prefix_of(header->0@) ==> who is Err && who->Err_0.status
            == 401,
{
    if r is Ok && header is Some && header->0@ == "Bearer "@ + token@ {
        let h = header->0@;
        assert(h.skip("Bearer "@.len() as int) =~= token@);
        assert(h.subrange(0, "Bearer "@.len() as int) =~= "Bearer "@);
        lemma_first_match(bots@, is_under(token_hash(token@)), 0);
    }
}

/// A bot is named by no token but the one whose hash is stored with it.
pub proof fn only_its_token_names_a_bot(
    header: &Option<String>,
    bots: &Vec<BotRow>,
    who: Result<&BotRow, HubError>,
    token: Seq<char>,
)
    requires
        call_ensures(authenticate_bot, (header, bots), who),
        header is Some,
        header->0@ == "Bearer "@ + token,
    ensures
        who matches Ok(b) ==> b.token_hash@ == hex_text(sha256_digest(encode_utf8(token)))
            && bots@.contains(*b),
        who is Err ==> who->Err_0.status == 401 && forall|i: int|
            0 <= i < bots@.len() ==> (#[trigger] bots@[i]).token_hash@ != hex_text(
                sha256_digest(encode_utf8(token)),
            ),
{
    let h = header->0@;
    assert(h.skip("Bearer "@.len() as int) =~= token);
    assert(h.subrange(0, "Bearer "@.len() as int) =~= "Bearer "@);
    lemma_match_holds(bots@, is_under(token_hash(token)));
    if who is Err {
        assert forall|i: int| 0 <= i < bots@.len() implies (#[trigger] bots@[i]).token_hash@
            != token_hash(token) by {
            assert(!is_under(token_hash(token))(bots@[i]));
        }
    }
}

/// A bot is deleted or given another address by the one who created it or by an admin, and by no
/// one else. Deleted, it is gone with its account, its commands and what waits for it; nothing of
/// another bot goes.
pub proof fn its_creator_deletes_a_bot(
    bots: &mut Vec<BotRow>,
    accounts: &mut Vec<BotAccount>,
    commands: &mut Vec<SlashCommandRow>,
    events: &mut Vec<EventRow>,
    key: &str,
    user: &str,
    perms: &UserPermissions,
    r: Result<u16, HubError>,
    i: int,
    bot: BotRow,
    account: BotAccount,
    command: SlashCommandRow,
    event: EventRow,
)
    requires
        call_ensures(admin_delete_bot, (bots, accounts, commands, events, key, user, perms), r),
        0 <= i < old(bots)@.len() ==> old(bots)@[i].public_key@ == key@ && forall|k: int|
            0 <= k < old(bots)@.len() && (#[trigger] old(bots)@[k]).public_key@ == key@ ==> k == i,
        !(0 <= i < old(bots)@.len()) ==> forall|k: int|
            0 <= k < old(bots)@.len() ==> (#[trigger] old(bots)@[k]).public_key@ != key@,
    ensures
        r is Ok <==> 0 <= i < old(bots)@.len() && (old(bots)@[i].created_by@ == user@ || allows(
            *perms,
            "admin"@,
        )),
        r matches Err(e) ==> e.status == if 0 <= i < old(bots)@.len() {
            403int
        } else {
            404
        },
        r is Err ==> final(bots)@ == old(bots)@ && final(accounts)@ == old(accounts)@ && final(commands)@ == old(commands)@ && final(events)@ == old(events)@,
        r is Ok ==> r->Ok_0 == 204 && (final(bots)@.contains(bot) <==> old(bots)@.contains(bot)
            && bot.public_key@ != key@) && (final(accounts)@.contains(account) <==> old(accounts)@.contains(account) && account.public_key@ != key@) && (final(commands)@.contains(command) <==> old(commands)@.contains(command)
            && command.bot_pubkey@ != key@) && (final(events)@.contains(event) <==> old(events)@.contains(event) && event.bot_pubkey@ != key@),
{
    lemma_may_is_allowed(*perms, ADMIN@);
    if 0 <= i < old(bots)@.len() {
        lemma_first_match(old(bots)@, is_row::<BotRow>(key@), i);
    } else {
        lemma_no_match(old(bots)@, is_row::<BotRow>(key@));
    }
    lemma_kept(old(bots)@, is_not::<BotRow>(key@), bot);
    lemma_kept(old(accounts)@, is_not::<BotAccount>(key@), account);
    lemma_kept(old(commands)@, is_other_command(key@), command);
    lemma_kept(old(events)@, is_other_event(key@), event);
}

/// The address of a bot is set by its creator or an admin to what was asked for; nothing else of
/// the bot changes.
pub proof fn its_creator_sets_the_address(
    bot: Option<BotRow>,
    user: &str,
    perms: &UserPermissions,
    req: SetWebhookRequest,
    r: Result<BotRow, HubError>,
)
    requires
        call_ensures(admin_set_webhook, (bot, user, perms, req), r),
    ensures
        r is Ok <==> bot is Some && (bot->0.created_by@ == user@ || allows(*perms, "admin"@)),
        r matches Err(e) ==> e.status == if bot is Some {
            403int
        } else {
            404
        },
        r matches Ok(b) ==> b.webhook_url == req.webhook_url && b.public_key == bot->0.public_key
            && b.token_hash == bot->0.token_hash && b.display_name == bot->0.display_name
            && b.created_by == bot->0.created_by && b.created_at == bot->0.created_at,
{
    lemma_may_is_allowed(*perms, ADMIN@);
}

/// Bots are shown as they are stored, each with its commands, and never with the hash of a token.
pub proof fn bots_are_shown_as_stored(
    rows: &Vec<BotRow>,
    list: Vec<BotAdminInfo>,
    bot: Option<BotRow>,
    commands: &Vec<SlashCommandRow>,
    d: Result<BotDetailResponse, HubError>,
    i: int,
)
    requires
        call_ensures(admin_list_bots, (rows,), list),
        call_ensures(admin_get_bot, (bot, commands), d),
    ensures
        list@.len() == rows@.len(),
        0 <= i < rows@.len() ==> list@[i].public_key@ == rows@[i].public_key@
            && list@[i].display_name@ == rows@[i].display_name@ && list@[i].created_by@
            == rows@[i].created_by@ && list@[i].created_at == rows@[i].created_at && opt_text(
            list@[i].webhook_url,
        ) == opt_text(rows@[i].webhook_url),
        d is Ok <==> bot is Some,
        d matches Err(e) ==> e.status == 404,
        d matches Ok(x) ==> x.public_key == bot->0.public_key && x.display_name
            == bot->0.display_name && x.created_by == bot->0.created_by && x.commands@.len()
            == commands@.len() && (0 <= i < commands@.len() ==> x.commands@[i].command
            == commands@[i].command && x.commands@[i].description == commands@[i].description),
{
}

/// The commands that a bot sets are stored for it, in small letters without the blanks around
/// them; one that is blank is left out, and nothing else is.
pub proof fn commands_are_stored_as_words(
    key: &str,
    req: &SetCommandsRequest,
    now: i64,
    r: Vec<SlashCommandRow>,
    i: int,
    k: int,
)
    requires
        call_ensures(bot_set_commands, (key, req, now), r),
    ensures
        0 <= i < req.commands@.len() && lowered(trimmed(req.commands@[i].command@)).len() > 0
            ==> exists|m: int|
            0 <= m < r@.len() && (#[trigger] r@[m]).command@ == lowered(
                trimmed(req.commands@[i].command@),
            ) && r@[m].description@ == trimmed(req.commands@[i].description@),
        0 <= k < r@.len() ==> r@[k].bot_pubkey@ == key@ && r@[k].created_at == now
            && r@[k].command@.len() > 0 && exists|m: int|
            0 <= m < req.commands@.len() && r@[k].command@ == lowered(
                trimmed((#[trigger] req.commands@[m]).command@),
            ),
{
    let all = req.commands@;
    let kept = all.filter(has_word());
    if 0 <= i < all.len() {
        lemma_kept(all, has_word(), all[i]);
        if has_word()(all[i]) {
            let m: int = choose|m: int| 0 <= m < kept.len() && kept[m] == all[i];
            assert(slash_stored(r@[m], kept[m], key@, now));
        }
    }
    if 0 <= k < r@.len() {
        assert(slash_stored(r@[k], kept[k], key@, now));
        assert(kept.contains(kept[k]));
        lemma_kept(all, has_word(), kept[k]);
        let m: int = choose|m: int| 0 <= m < all.len() && all[m] == kept[k];
        assert(r@[k].command@ == lowered(trimmed(all[m].command@)));
    }
}

/// What a bot posts stands in the channel under its key and its name, for everyone, as it was
/// written; into a channel that is not there nothing is posted.
pub proof fn a_bot_posts_under_its_name(
    bot: &BotRow,
    channel_exists: bool,
    req: &BotSendRequest,
    id: &str,
    now: i64,
    r: Result<ChatEvent, HubError>,
)
    requires
        call_ensures(bot_send_message, (bot, channel_exists, req, id, now), r),
    ensures
        r is Ok <==> channel_exists,
        r matches Err(e) ==> e.status == 404,
        r is Ok ==> (r->Ok_0 matches ChatEvent::New { channel_id, message } && channel_id@
            == req.channel_id@ && message.channel_id@ == req.channel_id@ && message.sender@
            == bot.public_key@ && opt_text(message.sender_name) == Some(bot.display_name@)
            && message.content@ == req.content@ && message.id@ == id@ && message.created_at == now
            && message.visible_to_pubkey is None && message.edited_at is None
            && message.attachments@.len() == 0 && message.reactions@.len() == 0
            && message.reply_to is None),
{
}

/// A poll answers what waits for the bot and came after the moment that it names, the oldest
/// first and at most a hundred at once: nothing that was delivered, and nothing of another bot.
pub proof fn a_poll_answers_what_waits(
    queue: &Vec<EventRow>,
    key: &str,
    params: &PollQuery,
    r: Vec<EventInfo>,
    i: int,
    k: int,
)
    requires
        call_ensures(bot_poll, (queue, key, params), r),
    ensures
        r@.len() <= 100,
        0 <= k < r@.len() ==> exists|m: int|
            0 <= m < queue@.len() && (#[trigger] queue@[m]).id == r@[k].id && queue@[m].bot_pubkey@
                == key@ && queue@[m].delivered == 0 && queue@[m].payload == r@[k].payload
                && queue@[m].event_type == r@[k].event_type && (params.since matches Some(t)
                ==> queue@[m].created_at > t),
        r@.len() < 100 && 0 <= i < queue@.len() && queue@[i].bot_pubkey@ == key@
            && queue@[i].delivered == 0 && (params.since matches Some(t) ==> queue@[i].created_at
            > t) ==> exists|m: int| 0 <= m < r@.len() && (#[trigger] r@[m]).id == queue@[i].id,
{
    let p = is_waiting(key@, params.since);
    let w = queue@.filter(p);
    if 0 <= k < r@.len() {
        assert(event_told(r@[k], w[k]));
        assert(w.contains(w[k]));
        lemma_kept(queue@, p, w[k]);
        let m: int = choose|m: int| 0 <= m < queue@.len() && queue@[m] == w[k];
        assert(queue@[m].id == r@[k].id);
    }
    if r@.len() < 100 && 0 <= i < queue@.len() {
        lemma_kept(queue@, p, queue@[i]);
        if p(queue@[i]) {
            let m: int = choose|m: int| 0 <= m < w.len() && w[m] == queue@[i];
            assert(event_told(r@[m], w[m]));
        }
    }
}

/// What a bot acknowledges is not answered to it again; what it did not name, and what waits for
/// others, waits on.
pub proof fn what_was_acknowledged_waits_no_more(
    queue: &mut Vec<EventRow>,
    key: &str,
    req: &AckRequest,
    done: (),
    i: int,
)
    requires
        call_ensures(bot_ack_events, (queue, key, req), done),
        0 <= i < old(queue)@.len(),
    ensures
        final(queue)@.len() == old(queue)@.len(),
        old(queue)@[i].bot_pubkey@ == key@ && texts(req.ids@).contains(old(queue)@[i].id@)
            ==> final(queue)@[i].delivered == 1,
        old(queue)@[i].bot_pubkey@ != key@ || !texts(req.ids@).contains(old(queue)@[i].id@)
            ==> final(queue)@[i] == old(queue)@[i],
        final(queue)@[i].id == old(queue)@[i].id,
        final(queue)@[i].payload == old(queue)@[i].payload,
{
}

/// A profile is stored as the bot gives it, with the capabilities that it claims and no others.
pub proof fn a_profile_says_what_the_bot_says(
    key: &str,
    m: &BotMeta,
    now: i64,
    p: BotProfileRow,
)
    requires
        call_ensures(profile_row, (key, m, now), p),
    ensures
        p.pubkey@ == key@,
        p.name@ == m.name@,
        opt_text(p.avatar_url) == opt_text(m.avatar_url),
        opt_text(p.description) == opt_text(m.description),
        opt_text(p.webhook_url) == opt_text(m.webhook_url),
        opt_text(p.homepage_url) == opt_text(m.homepage_url),
        p.updated_at == now,
        m.capabilities matches Some(c) ==> strings_of_json(p.capabilities@) == Some(texts(c@)),
        m.capabilities is None ==> strings_of_json(p.capabilities@) == Some(
            Seq::<Seq<char>>::empty(),
        ),
{
}

/// Commands are stored one by one as the bot describes them: for channels, unprivileged and with
/// three seconds between two uses, unless it says otherwise.
pub proof fn commands_are_stored_as_described(
    key: &str,
    commands: &Vec<BotCommandDef>,
    r: Vec<BotCommandRow>,
    meta: &BotMeta,
    replaced: Option<Vec<BotCommandRow>>,
    i: int,
)
    requires
        call_ensures(command_rows, (key, commands), r),
        call_ensures(replaced_commands, (key, meta), replaced),
    ensures
        r@.len() == commands@.len(),
        0 <= i < r@.len() ==> ({
            let c = commands@[i];
            &&& r@[i].pubkey@ == key@
            &&& r@[i].name@ == c.name@
            &&& r@[i].description@ == c.description@
            &&& opt_text(r@[i].args) == opt_text(c.args)
            &&& c.scope matches Some(s) ==> r@[i].scope@ == s@
            &&& c.scope is None ==> r@[i].scope@ == "channel"@
            &&& r@[i].privileged == 1 <==> c.privileged == Some(true)
            &&& r@[i].privileged == 0 <==> c.privileged != Some(true)
            &&& c.cooldown_seconds matches Some(n) ==> r@[i].cooldown_seconds == n
            &&& c.cooldown_seconds is None ==> r@[i].cooldown_seconds == 3
        }),
        replaced is Some <==> meta.commands is Some,
        replaced matches Some(v) ==> v@.len() == meta.commands->0@.len() && (0 <= i < v@.len()
            ==> v@[i].pubkey@ == key@ && v@[i].name@ == meta.commands->0@[i].name@),
{
}

/// A bot with a key of 64 hexadecimal digits is invited by those who manage roles: it has a day
/// to accept with its token. A bot that was unknown waits for it; one that was known stays as it
/// is.
pub proof fn a_bot_is_invited_for_a_day(
    perms: &UserPermissions,
    known: Option<BotAccount>,
    req: &InviteBotRequest,
    token: &str,
    now: i64,
    r: Result<(BotAccount, InviteBotResponse), HubError>,
    i: int,
)
    requires
        now <= i64::MAX - 86400,
        call_ensures(ext_invite_bot, (perms, known, req, token, now), r),
    ensures
        r is Ok ==> allows(*perms, "manage_roles"@) && req.pubkey@.len() == 64,
        !allows(*perms, "manage_roles"@) ==> r is Err && r->Err_0.status == 403,
        allows(*perms, "manage_roles"@) && req.pubkey@.len() != 64 ==> r is Err && r->Err_0.status
            == 400,
        allows(*perms, "manage_roles"@) && req.pubkey@.len() == 64 && (forall|k: int|
            0 <= k < 64 ==> ('0' <= #[trigger] req.pubkey@[k] && req.pubkey@[k] <= '9') || ('a'
                <= req.pubkey@[k] && req.pubkey@[k] <= 'f') || ('A' <= req.pubkey@[k]
                && req.pubkey@[k] <= 'F')) ==> r is Ok,
        0 <= i < req.pubkey@.len() && !(('0' <= req.pubkey@[i] && req.pubkey@[i] <= '9') || ('a'
            <= req.pubkey@[i] && req.pubkey@[i] <= 'f') || ('A' <= req.pubkey@[i] && req.pubkey@[i]
            <= 'F')) ==> r is Err,
        r matches Ok(x) ==> x.1.invite_token@ == token@ && opt_text(x.0.bot_invite_token) == Some(
            token@,
        ) && x.0.bot_invite_expires is Some && x.0.bot_invite_expires->0 - now == 24 * 3600,
        r is Ok && known is None ==> r->Ok_0.0.public_key@ == req.pubkey@
            && r->Ok_0.0.approval_status@ == "bot_pending"@ && r->Ok_0.0.is_bot == 1
            && r->Ok_0.0.is_bot_removed == 0 && r->Ok_0.0.first_seen_at == now
            && r->Ok_0.0.last_seen_at == Some(now) && r->Ok_0.0.display_name is None,
        r is Ok && known is Some ==> r->Ok_0.0.public_key == known->0.public_key
            && r->Ok_0.0.approval_status == known->0.approval_status && r->Ok_0.0.is_bot
            == known->0.is_bot && r->Ok_0.0.is_bot_removed == known->0.is_bot_removed
            && r->Ok_0.0.first_seen_at == known->0.first_seen_at,
{
    lemma_may_is_allowed(*perms, MANAGE_ROLES@);
    if r is Ok && 0 <= i < req.pubkey@.len() {
        assert(is_hex(req.pubkey@[i]));
    }
}

/// An invitation is accepted by the bot that signs its token, in time: it is then approved, the
/// token is used up, and its profile is what it says of itself.
pub proof fn an_invitation_is_accepted_once(
    account: Option<BotAccount>,
    req: &AcceptInviteRequest,
    signed: bool,
    now: i64,
    r: Result<AcceptedInvite, HubError>,
)
    requires
        call_ensures(ext_accept_invite, (account, req, signed, now), r),
    ensures
        r is Ok <==> account is Some && account->0.is_bot == 1 && account->0.bot_invite_token
            is Some && (account->0.bot_invite_expires matches Some(t) ==> now <= t) && hex_bytes(
            req.signature_over_token@,
        ) is Some && signed,
        account is None ==> r->Err_0.status == 404,
        account is Some && account->0.is_bot == 1 && account->0.bot_invite_token is Some
            && account->0.bot_invite_expires is Some && now > account->0.bot_invite_expires->0
            ==> r->Err_0.status == 410,
        r matches Ok(x) ==> x.account.approval_status@ == "approved"@ && x.account.bot_invite_token
            is None && x.account.bot_invite_expires is None && x.account.public_key
            == account->0.public_key && x.account.is_bot == 1 && x.response.status@ == "accepted"@,
        r matches Ok(x) ==> x.profile.pubkey@ == req.pubkey@ && x.profile.name@
            == req.bot_meta.name@ && x.profile.updated_at == now && (x.commands is Some
            <==> req.bot_meta.commands is Some),
{
}

/// What a bot signs to accept is the token of its invitation, with its own key.
pub proof fn acceptance_is_held_against_the_token(
    req: &AcceptInviteRequest,
    token: &str,
    c: Option<SignatureClaim>,
)
    requires
        call_ensures(invite_claim, (req, token), c),
    ensures
        c is Some <==> hex_bytes(req.signature_over_token@) is Some,
        c matches Some(x) ==> x.key@ == req.pubkey@ && x.message@ == encode_utf8(token@) && Some(
            x.signature@,
        ) == hex_bytes(req.signature_over_token@),
{
}

/// A bot that an admin removes is no longer listed; its account stays, and no one else's changes.
pub proof fn an_admin_removes_a_bot(
    perms: &UserPermissions,
    accounts: &mut Vec<BotAccount>,
    key: &str,
    r: Result<u16, HubError>,
    i: int,
)
    requires
        call_ensures(ext_remove_bot, (perms, accounts, key), r),
        0 <= i < old(accounts)@.len(),
    ensures
        r is Ok <==> allows(*perms, "admin"@),
        r is Err ==> r->Err_0.status == 403 && final(accounts)@ == old(accounts)@,
        final(accounts)@.len() == old(accounts)@.len(),
        r is Ok && old(accounts)@[i].public_key@ == key@ && old(accounts)@[i].is_bot == 1 ==> final(accounts)@[i].is_bot_removed == 1,
        old(accounts)@[i].public_key@ != key@ || old(accounts)@[i].is_bot != 1 ==> final(accounts)@[i] == old(accounts)@[i],
        final(accounts)@[i] == (BotAccount {
            is_bot_removed: final(accounts)@[i].is_bot_removed,
            ..old(accounts)@[i]
        }),
{
    lemma_may_is_allowed(*perms, ADMIN@);
}

/// The bots that are listed are those that were not removed and have a profile, each under the
/// name of its profile.
pub proof fn bots_with_a_profile_are_listed(
    accounts: &Vec<BotAccount>,
    profiles: &Vec<BotProfileRow>,
    commands: &Vec<BotCommandRow>,
    r: Vec<BotListEntry>,
    i: int,
    j: int,
    k: int,
)
    requires
        call_ensures(ext_list_bots, (accounts, profiles, commands), r),
    ensures
        0 <= i < accounts@.len() && 0 <= j < profiles@.len() && accounts@[i].is_bot == 1
            && accounts@[i].is_bot_removed == 0 && profiles@[j].pubkey@ == accounts@[i].public_key@
            && (forall|m: int|
            0 <= m < j ==> (#[trigger] profiles@[m]).pubkey@ != accounts@[i].public_key@) ==> exists|
            m: int,
        |
            0 <= m < r@.len() && (#[trigger] r@[m]).pubkey == accounts@[i].public_key && r@[m].name
                == profiles@[j].name && opt_text(r@[m].description) == opt_text(
                profiles@[j].description,
            ) && r@[m].last_seen_at == accounts@[i].last_seen_at && opt_text(r@[m].avatar_url)
                == opt_text(profiles@[j].avatar_url) && opt_text(r@[m].webhook_url) == opt_text(
                profiles@[j].webhook_url,
            ),
        0 <= k < r@.len() ==> (exists|m: int|
            0 <= m < accounts@.len() && (#[trigger] accounts@[m]).public_key == r@[k].pubkey
                && accounts@[m].is_bot == 1 && accounts@[m].is_bot_removed == 0) && (exists|m: int|
            0 <= m < profiles@.len() && (#[trigger] profiles@[m]).pubkey@ == r@[k].pubkey@
                && profiles@[m].name == r@[k].name),
        0 <= k < r@.len() && 0 <= i < commands@.len() && commands@[i].pubkey@ == r@[k].pubkey@
            ==> exists|m: int|
            0 <= m < r@[k].commands@.len() && (#[trigger] r@[k].commands@[m]).name
                == commands@[i].name,
{
    let p = is_listed(profiles@);
    let l = accounts@.filter(p);
    if 0 <= i < accounts@.len() && 0 <= j < profiles@.len() && profiles@[j].pubkey@
        == accounts@[i].public_key@ && (forall|m: int|
        0 <= m < j ==> (#[trigger] profiles@[m]).pubkey@ != accounts@[i].public_key@) {
        lemma_first_match(profiles@, is_profile_of(accounts@[i].public_key@), j);
        lemma_kept(accounts@, p, accounts@[i]);
        if p(accounts@[i]) {
            let m: int = choose|m: int| 0 <= m < l.len() && l[m] == accounts@[i];
            assert(listed_as(
                r@[m],
                l[m],
                profile_of(profiles@, l[m].public_key@)->0,
                commands@,
            ));
        }
    }
    if 0 <= k < r@.len() {
        assert(listed_as(r@[k], l[k], profile_of(profiles@, l[k].public_key@)->0, commands@));
        assert(l.contains(l[k]));
        lemma_kept(accounts@, p, l[k]);
        let m: int = choose|m: int| 0 <= m < accounts@.len() && accounts@[m] == l[k];
        assert(accounts@[m].public_key == r@[k].pubkey);
        lemma_match_holds(profiles@, is_profile_of(l[k].public_key@));
        let f = profile_of(profiles@, l[k].public_key@)->0;
        let n: int = choose|n: int| 0 <= n < profiles@.len() && profiles@[n] == f;
        assert(profiles@[n].name == r@[k].name);
        if 0 <= i < commands@.len() && commands@[i].pubkey@ == r@[k].pubkey@ {
            let own = commands@.filter(is_of(l[k].public_key@));
            lemma_kept(commands@, is_of(l[k].public_key@), commands@[i]);
            let q: int = choose|q: int| 0 <= q < own.len() && own[q] == commands@[i];
            assert(r@[k].commands@[q].name == own[q].name);
        }
    }
}

/// Only a bot is shown its own profile, as it is stored, and only a bot replaces it: what it is
/// answered is what it gave.
pub proof fn a_bot_sees_and_changes_its_own_profile(
    is_bot: Option<i64>,
    profile: &Option<BotProfileRow>,
    commands: &Vec<BotCommandRow>,
    me: Result<BotMeResponse, HubError>,
    user: &str,
    meta: &BotMeta,
    now: i64,
    r: Result<(BotProfileRow, BotMeResponse), HubError>,
    i: int,
)
    requires
        call_ensures(ext_bot_me, (is_bot, profile, commands), me),
        call_ensures(ext_update_bot_profile, (is_bot, user, meta, commands, now), r),
    ensures
        me is Ok <==> is_bot == Some(1i64) && profile is Some,
        me matches Err(e) ==> e.status == if is_bot == Some(1i64) {
            404int
        } else {
            403
        },
        r is Ok <==> is_bot == Some(1i64),
        r matches Err(e) ==> e.status == 403,
        me matches Ok(m) ==> m.pubkey@ == profile->0.pubkey@ && m.name@ == profile->0.name@
            && opt_text(m.description) == opt_text(profile->0.description) && opt_text(
            m.webhook_url,
        ) == opt_text(profile->0.webhook_url) && m.commands@.len() == commands@.len() && (0 <= i
            < commands@.len() ==> m.commands@[i].name@ == commands@[i].name@ && (
        m.commands@[i].privileged == Some(true) <==> commands@[i].privileged != 0)
            && m.commands@[i].cooldown_seconds == Some(commands@[i].cooldown_seconds)
            && m.commands@[i].description@ == commands@[i].description@ && opt_text(
            m.commands@[i].args,
        ) == opt_text(commands@[i].args) && opt_text(m.commands@[i].scope) == Some(
            commands@[i].scope@,
        )),
        me matches Ok(m) ==> opt_text(m.avatar_url) == opt_text(profile->0.avatar_url) && opt_text(
            m.homepage_url,
        ) == opt_text(profile->0.homepage_url),
        r matches Ok(x) ==> opt_text(x.0.avatar_url) == opt_text(meta.avatar_url) && opt_text(
            x.0.webhook_url,
        ) == opt_text(meta.webhook_url) && opt_text(x.0.homepage_url) == opt_text(meta.homepage_url)
            && opt_text(x.1.avatar_url) == opt_text(meta.avatar_url) && opt_text(x.1.webhook_url)
            == opt_text(meta.webhook_url) && opt_text(x.1.homepage_url) == opt_text(
            meta.homepage_url,
        ),
        me is Ok && strings_of_json(profile->0.capabilities@) is Some ==> texts(
            me->Ok_0.capabilities@,
        ) == strings_of_json(profile->0.capabilities@)->0,
        r matches Ok(x) ==> x.0.pubkey@ == user@ && x.0.name@ == meta.name@ && x.0.updated_at == now
            && x.1.pubkey@ == user@ && x.1.name@ == meta.name@ && opt_text(x.1.description)
            == opt_text(meta.description) && (meta.capabilities matches Some(c) ==> texts(
            x.1.capabilities@,
        ) == texts(c@)) && (meta.capabilities is None ==> x.1.capabilities@.len() == 0),
{
    if r is Ok {
        assert(texts(r->Ok_0.1.capabilities@).len() == r->Ok_0.1.capabilities@.len());
    }
}

/// Only a bot replaces its commands, and it does so with what it gives.
pub proof fn a_bot_changes_its_own_commands(
    is_bot: Option<i64>,
    user: &str,
    req: &UpdateCommandsRequest,
    r: Result<Vec<BotCommandRow>, HubError>,
    i: int,
)
    requires
        call_ensures(ext_update_bot_commands, (is_bot, user, req), r),
    ensures
        r is Ok <==> is_bot == Some(1i64),
        r matches Err(e) ==> e.status == 403,
        r matches Ok(v) ==> v@.len() == req.commands@.len() && (0 <= i < v@.len() ==> v@[i].pubkey@
            == user@ && v@[i].name@ == req.commands@[i].name@ && v@[i].description@
            == req.commands@[i].description@),
{
}

/// Only a bot subscribes, and to messages only in channels that it names, but for mentions of
/// itself. It then hears of each event in each channel that it named, or everywhere where it
/// named none; and of nothing else.
pub proof fn a_bot_subscribes_to_what_it_names(
    is_bot: Option<i64>,
    user: &str,
    req: &UpdateSubscriptionsRequest,
    r: Result<(Vec<Subscription>, SetSubscriptionsResponse), HubError>,
    i: int,
    j: int,
    k: int,
)
    requires
        call_ensures(ext_update_bot_subscriptions, (is_bot, user, req), r),
    ensures
        is_bot != Some(1i64) ==> r is Err && r->Err_0.status == 403,
        is_bot == Some(1i64) ==> (r is Ok <==> forall|m: int|
            0 <= m < req.subscriptions@.len() && "message."@.is_prefix_of(
                (#[trigger] req.subscriptions@[m]).event@,
            ) && req.subscriptions@[m].event@ != "message.mention_bot"@
                ==> req.subscriptions@[m].channels is Some
                && req.subscriptions@[m].channels->0@.len() > 0),
        is_bot == Some(1i64) && r is Err ==> r->Err_0.status == 400,
        r matches Ok(x) ==> x.1.count == x.0@.len(),
        r is Ok && 0 <= i < req.subscriptions@.len() && req.subscriptions@[i].channels is Some && 0
            <= j < req.subscriptions@[i].channels->0@.len() ==> exists|m: int|
            0 <= m < r->Ok_0.0@.len() && (#[trigger] r->Ok_0.0@[m]).event_type@
                == req.subscriptions@[i].event@ && r->Ok_0.0@[m].channel_id@
                == req.subscriptions@[i].channels->0@[j]@,
        r is Ok && 0 <= i < req.subscriptions@.len() && (req.subscriptions@[i].channels is None
            || req.subscriptions@[i].channels->0@.len() == 0) ==> exists|m: int|
            0 <= m < r->Ok_0.0@.len() && (#[trigger] r->Ok_0.0@[m]).event_type@
                == req.subscriptions@[i].event@ && r->Ok_0.0@[m].channel_id@.len() == 0,
        r is Ok && 0 <= k < r->Ok_0.0@.len() ==> r->Ok_0.0@[k].bot_pubkey@ == user@ && exists|m: int|
            0 <= m < req.subscriptions@.len() && (#[trigger] req.subscriptions@[m]).event@
                == r->Ok_0.0@[k].event_type@ && (if req.subscriptions@[m].channels is Some
                && req.subscriptions@[m].channels->0@.len() > 0 {
                texts(req.subscriptions@[m].channels->0@).contains(r->Ok_0.0@[k].channel_id@)
            } else {
                r->Ok_0.0@[k].channel_id@.len() == 0
            }),
{
    let s = req.subscriptions@;
    lemma_subscription_faults(s);
    if r is Ok {
        let rows = r->Ok_0.0@;
        let pairs = row_pairs(rows);
        assert(pairs.len() == rows.len());
        if 0 <= i < s.len() {
            let c = channels_of(s[i]);
            if s[i].channels is Some && 0 <= j < s[i].channels->0@.len() {
                assert(c[j] == s[i].channels->0@[j]@);
                let m: int = lemma_pair_stands(s, i, j);
                assert(pairs[m] == (rows[m].event_type@, rows[m].channel_id@));
            }
            if s[i].channels is None || s[i].channels->0@.len() == 0 {
                let m: int = lemma_pair_stands(s, i, 0);
                assert(c[0] == Seq::<char>::empty());
                assert(pairs[m] == (rows[m].event_type@, rows[m].channel_id@));
            }
        }
        if 0 <= k < rows.len() {
            assert(pairs[k] == (rows[k].event_type@, rows[k].channel_id@));
            let (m, n) = lemma_pair_asked(s, k);
            let c = channels_of(s[m]);
            assert(c.contains(c[n]));
            assert(s[m].event@ == rows[k].event_type@);
        }
    }
}

/// There is a fault exactly where some subscription does not name the channels that it needs.
proof fn lemma_subscription_faults(s: Seq<BotSubscription>)
    ensures
        subscription_fault(s) is None <==> forall|m: int|
            0 <= m < s.len() && "message."@.is_prefix_of((#[trigger] s[m]).event@) && s[m].event@
                != "message.mention_bot"@ ==> s[m].channels is Some && s[m].channels->0@.len() > 0,
    decreases s.len(),
{
    if s.len() > 0 {
        let t = s.drop_last();
        lemma_subscription_faults(t);
        assert forall|m: int| 0 <= m < t.len() implies #[trigger] s[m] == t[m] by {}
        if subscription_fault(s) is None {
            assert forall|m: int|
                0 <= m < s.len() && "message."@.is_prefix_of((#[trigger] s[m]).event@) && s[m].event@
                    != "message.mention_bot"@ implies s[m].channels is Some
                && s[m].channels->0@.len() > 0 by {
                if m < t.len() {
                    assert(t[m] == s[m]);
                }
            }
        } else {
            if subscription_fault(t) is Some {
                let m: int = choose|m: int|
                    0 <= m < t.len() && "message."@.is_prefix_of((#[trigger] t[m]).event@)
                        && t[m].event@ != "message.mention_bot"@ && !(t[m].channels is Some
                        && t[m].channels->0@.len() > 0);
                assert(s[m] == t[m]);
            } else {
                assert(s[s.len() - 1] == s.last());
            }
        }
    }
}

/// What a subscription asks for stands among all that is asked for.
proof fn lemma_pair_stands(s: Seq<BotSubscription>, i: int, j: int) -> (m: int)
    requires
        0 <= i < s.len(),
        0 <= j < channels_of(s[i]).len(),
    ensures
        0 <= m < asked_pairs(s).len(),
        asked_pairs(s)[m] == (s[i].event@, channels_of(s[i])[j]),
    decreases s.len(),
{
    let rest = asked_pairs(s.drop_last());
    if i == s.len() - 1 {
        rest.len() + j
    } else {
        assert(s.drop_last()[i] == s[i]);
        lemma_pair_stands(s.drop_last(), i, j)
    }
}

/// What stands among all that is asked for, some subscription asks for.
proof fn lemma_pair_asked(s: Seq<BotSubscription>, k: int) -> (r: (int, int))
    requires
        0 <= k < asked_pairs(s).len(),
    ensures
        0 <= r.0 < s.len(),
        0 <= r.1 < channels_of(s[r.0]).len(),
        asked_pairs(s)[k] == (s[r.0].event@, channels_of(s[r.0])[r.1]),
    decreases s.len(),
{
    let rest = asked_pairs(s.drop_last());
    if k < rest.len() {
        let r = lemma_pair_asked(s.drop_last(), k);
        assert(s.drop_last()[r.0] == s[r.0]);
        r
    } else {
        (s.len() - 1, k - rest.len())
    }
}

/// The log is shown to admins only: what comes after the cursor, within the times and of the kind
/// that are asked for, at most as many as asked, which is 50 where nothing is asked and never
/// more than 200. Where more follows, the cursor of the next page is the number of the last entry.
pub proof fn the_log_is_paged(
    perms: &UserPermissions,
    q: &AuditLogQuery,
    rows: &Vec<AuditLogRow>,
    r: Result<AuditLogResponse, HubError>,
    i: int,
    k: int,
)
    requires
        call_ensures(admin_audit_log, (perms, q, rows), r),
    ensures
        r is Ok <==> allows(*perms, "admin"@),
        r matches Err(e) ==> e.status == 403,
        r matches Ok(p) ==> p.entries@.len() <= 200 && (q.limit is None ==> p.entries@.len() <= 50)
            && (q.limit matches Some(n) ==> (n >= 1 ==> p.entries@.len() <= n) && (n < 1
            ==> p.entries@.len() <= 1)),
        r is Ok && 0 <= k < r->Ok_0.entries@.len() ==> ({
            let e = r->Ok_0.entries@[k];
            &&& q.cursor matches Some(c) ==> e.seq > c
            &&& q.since matches Some(t) ==> e.at >= t
            &&& q.until matches Some(t) ==> e.at <= t
            &&& q.event_type matches Some(t) ==> t@.len() == 0 || e.event_type@ == t@
            &&& exists|m: int|
                0 <= m < rows@.len() && (#[trigger] rows@[m]).seq == e.seq && rows@[m].event_type
                    == e.event_type && rows@[m].at == e.at && opt_text(rows@[m].actor_pubkey)
                    == opt_text(e.actor_pubkey) && opt_text(rows@[m].channel_id) == opt_text(
                    e.channel_id,
                ) && opt_text(rows@[m].target_pubkey) == opt_text(e.target_pubkey) && (is_json(rows@[m].payload_json@) ==> e.payload@ == rows@[m].payload_json@)
                    && (!is_json(rows@[m].payload_json@) ==> e.payload@ == "null"@)
        }),
        r is Ok && r->Ok_0.next_cursor is None && 0 <= i < rows@.len() && rows@[i].seq > (
        match q.cursor {
            Some(c) => c,
            None => 0i64,
        }) && (q.since matches Some(t) ==> rows@[i].at >= t) && (q.since is None ==> rows@[i].at
            >= 0) && (q.until matches Some(t) ==> rows@[i].at <= t) && (q.event_type matches Some(t)
            ==> t@.len() == 0 || rows@[i].event_type@ == t@) ==> exists|m: int|
            0 <= m < r->Ok_0.entries@.len() && (#[trigger] r->Ok_0.entries@[m]).seq == rows@[i].seq,
        r is Ok && r->Ok_0.next_cursor is Some ==> r->Ok_0.entries@.len() > 0
            && r->Ok_0.next_cursor->0 == r->Ok_0.entries@[r->Ok_0.entries@.len() - 1].seq,
{
    lemma_may_is_allowed(*perms, ADMIN@);
    if r is Ok {
        let p = is_asked(*q);
        let all = rows@.filter(p);
        let shown = r->Ok_0.entries@;
        if 0 <= k < shown.len() {
            assert(entry_shown(shown[k], all[k]));
            assert(all.contains(all[k]));
            lemma_kept(rows@, p, all[k]);
            let m: int = choose|m: int| 0 <= m < rows@.len() && rows@[m] == all[k];
            assert(rows@[m].seq == shown[k].seq);
        }
        if 0 <= i < rows@.len() {
            lemma_kept(rows@, p, rows@[i]);
            if p(rows@[i]) && r->Ok_0.next_cursor is None {
                let m: int = choose|m: int| 0 <= m < all.len() && all[m] == rows@[i];
                assert(entry_shown(shown[m], all[m]));
            }
        }
        if r->Ok_0.next_cursor is Some {
            assert(entry_shown(shown[shown.len() - 1], all[shown.len() - 1]));
        }
    }
}

/// A token is stored as the hash of its characters.
pub proof fn a_token_is_stored_as_its_hash(token: &str, bytes: &[u8], r: String, digest: String)
    requires
        call_ensures(hash_token, (token,), r),
        bytes@ == encode_utf8(token@),
        call_ensures(sha256_hex, (bytes,), digest),
    ensures
        r@ == digest@,
{
}

} // verus!
