use voxply::hub::bots::{
    admin_audit_log, admin_create_bot, admin_delete_bot, admin_get_bot, admin_list_bots,
    admin_set_webhook, authenticate_bot, bot_ack_events, bot_poll, bot_send_message,
    bot_set_commands, command_rows, ext_accept_invite, ext_bot_me, ext_invite_bot, ext_list_bots,
    ext_remove_bot, ext_update_bot_commands, ext_update_bot_profile, ext_update_bot_subscriptions,
    hash_token, invite_claim, profile_row, AcceptInviteRequest, AckRequest, AuditLogQuery, AuditLogRow,
    BotAccount, BotCommandDef, BotMeta, BotRow, BotSendRequest, BotSubscription, CommandInput,
    CreateBotRequest, EventRow, InviteBotRequest, PollQuery, SetCommandsRequest,
    SetWebhookRequest, UpdateCommandsRequest, UpdateSubscriptionsRequest,
};
use voxply::hub::chat_models::ChatEvent;
use voxply::hub::events::{
    bot_in_scope, current_seq, log_row, maybe_redact_message_content, publish_hub_event,
    replay_events_for_bot, replay_result, AuditRow, BotCapabilities, ChannelScope, ReplayPlan,
    ReplayResult, Subscription,
};
use voxply::hub::payload::{
    copy_payload, copy_value, field, holds_key, nullable, HubEvent, JsonField, JsonValue, Payload,
};
use voxply::hub::permissions::{user_permissions, RolePermission, RoleRow, UserPermissions};
use voxply::hub::token_expiry::{tick, SessionRow};
use voxply::hub::HubError;

fn text(s: &str) -> String {
    s.to_string()
}

fn holding(permissions: &[&str]) -> UserPermissions {
    let role = RoleRow { id: text("r"), name: text("r"), priority: 1, created_at: 0 };
    let grants: Vec<RolePermission> = permissions
        .iter()
        .map(|p| RolePermission { role_id: text("r"), permission: text(p) })
        .collect();
    user_permissions(vec![role], &grants)
}

fn refused<T>(r: Result<T, HubError>, status: u16, message: &str) {
    let e = r.err().unwrap();
    assert_eq!(e.message, message);
    assert_eq!(e.status, status);
}

fn bot() -> BotRow {
    let req = CreateBotRequest { display_name: text(" Robo ") };
    admin_create_bot("me", &req, "bot_1", "tok", 5).ok().unwrap().bot
}

#[test]
fn a_created_bot_authenticates_with_its_token() {
    let req = CreateBotRequest { display_name: text(" Robo ") };
    let c = admin_create_bot("me", &req, "bot_1", "tok", 5).ok().unwrap();
    assert_eq!(c.response.display_name, "Robo");
    assert_eq!(c.response.token, "tok");
    assert_eq!(c.account.approval_status, "approved");
    assert_eq!(c.bot.token_hash, hash_token("tok"));
    assert_ne!(c.bot.token_hash, "tok");
    let bots = vec![c.bot];
    let auth = |h: Option<&str>| authenticate_bot(&h.map(|x| x.to_string()), &bots);
    assert_eq!(auth(Some("Bearer tok")).ok().unwrap().public_key, "bot_1");
    refused(auth(Some("Bearer other")), 401, "Invalid bot token");
    refused(auth(Some("tok")), 401, "Missing bot token");
    refused(auth(None), 401, "Missing bot token");
    let blank = CreateBotRequest { display_name: text(" ") };
    refused(admin_create_bot("me", &blank, "b", "t", 5), 400, "display_name cannot be empty");
}

#[test]
fn a_bot_is_changed_by_its_creator_or_an_admin() {
    let none = holding(&[]);
    let admin = holding(&["admin"]);
    assert_eq!(admin_list_bots(&vec![bot()])[0].display_name, "Robo");
    let accounts = || {
        let req = CreateBotRequest { display_name: text("Robo") };
        let mut other = admin_create_bot("me", &req, "bot_2", "t", 5).ok().unwrap().account;
        other.is_bot = 0;
        vec![admin_create_bot("me", &req, "bot_1", "t", 5).ok().unwrap().account, other]
    };
    let delete = |key: &str, who: &str, p: &UserPermissions| {
        let mut bots = vec![bot()];
        let mut left = accounts();
        let command = |word: &str| CommandInput { command: text(word), description: text("d") };
        let req = SetCommandsRequest { commands: vec![command("a"), command("b")] };
        let mut commands = bot_set_commands("bot_1", &req, 5);
        assert!(commands.iter().all(|c| c.id.len() == 36));
        assert!(commands[0].id != commands[1].id);
        commands.append(&mut bot_set_commands("bot_2", &req, 5));
        let waiting = |id: &str, bot: &str| EventRow {
            id: text(id),
            bot_pubkey: text(bot),
            event_type: text("e"),
            payload: text("{}"),
            delivered: 0,
            created_at: 5,
        };
        let mut events = vec![waiting("1", "bot_2"), waiting("2", "bot_1")];
        let r =
            admin_delete_bot(&mut bots, &mut left, &mut commands, &mut events, key, who, p);
        assert_eq!(commands.len(), if r.is_ok() { 2 } else { 4 });
        assert_eq!(events.len(), if r.is_ok() { 1 } else { 2 });
        assert_eq!(events[0].id, "1");
        (r, bots.len(), left.len())
    };
    assert!(matches!(delete("bot_1", "me", &none), (Ok(204), 0, 1)));
    assert!(matches!(delete("bot_1", "you", &admin), (Ok(204), 0, 1)));
    let (r, bots, left) = delete("bot_1", "you", &none);
    refused(r, 403, "Missing permission: admin");
    assert_eq!((bots, left), (1, 2));
    refused(delete("bot_9", "me", &admin).0, 404, "Bot not found");
    let url = || SetWebhookRequest { webhook_url: Some(text("https://x")) };
    let b = admin_set_webhook(Some(bot()), "me", &none, url()).ok().unwrap();
    assert_eq!(b.webhook_url.as_deref(), Some("https://x"));
    refused(admin_set_webhook(None, "me", &none, url()), 404, "Bot not found");
    refused(admin_set_webhook(Some(bot()), "you", &none, url()), 403, "Missing permission: admin");
}

#[test]
fn the_commands_of_a_bot_are_words_in_lower_case() {
    let input = |c: &str| CommandInput { command: text(c), description: text("d") };
    let req = SetCommandsRequest { commands: vec![input(" Roll "), input("  ")] };
    let rows = bot_set_commands("bot_1", &req, 7);
    assert_eq!(rows.len(), 1);
    assert_eq!(rows[0].command, "roll");
    assert_ne!(rows[0].id, "");
    let d = admin_get_bot(Some(bot()), &rows).ok().unwrap();
    assert_eq!(d.commands[0].command, "roll");
    refused(admin_get_bot(None, &vec![]), 404, "Bot not found");
}

#[test]
fn a_bot_speaks_in_its_own_name() {
    let req = BotSendRequest { channel_id: text("c"), content: text("beep") };
    match bot_send_message(&bot(), true, &req, "m", 8).ok().unwrap() {
        ChatEvent::New { channel_id, message } => {
            assert_eq!(channel_id, "c");
            assert_eq!(message.sender, "bot_1");
            assert_eq!(message.sender_name.as_deref(), Some("Robo"));
        }
        _ => panic!("a new message was expected"),
    }
    refused(bot_send_message(&bot(), false, &req, "m", 8), 404, "Channel not found");
}

fn waiting(id: &str, at: i64) -> EventRow {
    EventRow {
        id: text(id),
        bot_pubkey: text("bot_1"),
        event_type: text("e"),
        payload: text("{}"),
        delivered: 0,
        created_at: at,
    }
}

#[test]
fn acknowledged_events_do_not_wait() {
    let mut queue: Vec<EventRow> = (0..120).map(|i| waiting(&format!("e{i}"), i)).collect();
    let all = PollQuery { since: None };
    assert_eq!(bot_poll(&queue, "bot_1", &all).len(), 100);
    assert_eq!(bot_poll(&queue, "other", &all).len(), 0);
    assert_eq!(bot_poll(&queue, "bot_1", &PollQuery { since: Some(117) }).len(), 2);
    let ids = (0..119).map(|i| format!("e{i}")).collect();
    bot_ack_events(&mut queue, "other", &AckRequest { ids: vec![text("e119")] });
    bot_ack_events(&mut queue, "bot_1", &AckRequest { ids });
    let left = bot_poll(&queue, "bot_1", &all);
    assert_eq!(left.len(), 1);
    assert_eq!(left[0].id, "e119");
}

fn meta(caps: Option<Vec<String>>, commands: Option<Vec<BotCommandDef>>) -> BotMeta {
    BotMeta {
        name: text("Robo"),
        avatar_url: None,
        description: Some(text("d")),
        webhook_url: None,
        homepage_url: None,
        capabilities: caps,
        commands,
    }
}

fn command(name: &str) -> BotCommandDef {
    BotCommandDef {
        name: text(name),
        description: text("d"),
        args: None,
        scope: None,
        privileged: Some(true),
        cooldown_seconds: None,
    }
}

fn accept(signature: &str) -> AcceptInviteRequest {
    AcceptInviteRequest {
        pubkey: "a".repeat(64),
        signature_over_token: text(signature),
        bot_meta: meta(None, Some(vec![command("x")])),
    }
}

#[test]
fn an_invitation_is_signed_over_its_token() {
    let c = invite_claim(&accept("0a0b"), "inv").unwrap();
    assert_eq!(c.key, "a".repeat(64));
    assert_eq!(c.message, b"inv".to_vec());
    assert_eq!(c.signature, vec![10, 11]);
    assert!(invite_claim(&accept("0"), "inv").is_none());
}

fn invited_account() -> BotAccount {
    let req = InviteBotRequest { pubkey: "a".repeat(64), note: None };
    let m = holding(&["manage_roles"]);
    ext_invite_bot(&m, None, &req, "inv", 1000).ok().unwrap().0
}

#[test]
fn an_invited_bot_signs_within_a_day() {
    let m = holding(&["manage_roles"]);
    let short = InviteBotRequest { pubkey: text("abc"), note: None };
    refused(ext_invite_bot(&m, None, &short, "t", 0), 400, "pubkey must be 64 hex characters");
    let odd = InviteBotRequest { pubkey: "g".repeat(64), note: None };
    refused(ext_invite_bot(&m, None, &odd, "t", 0), 400, "pubkey must be 64 hex characters");
    refused(
        ext_invite_bot(&holding(&[]), None, &short, "t", 0),
        403,
        "Missing permission: manage_roles",
    );
    let a = invited_account();
    assert_eq!(a.bot_invite_expires, Some(87_400));
    assert_eq!(a.approval_status, "bot_pending");
    let go = |a: Option<BotAccount>, s: &str, signed: bool, now: i64| {
        ext_accept_invite(a, &accept(s), signed, now)
    };
    refused(go(None, "00", true, 1), 404, "Bot not found or not invited");
    refused(go(Some(invited_account()), "00", true, 87_401), 410, "Invite token has expired");
    refused(go(Some(invited_account()), "0", true, 87_400), 400, "Invalid signature hex");
    refused(
        go(Some(invited_account()), "00", false, 87_400),
        401,
        "Invalid signature over invite token",
    );
    let mut human = invited_account();
    human.is_bot = 0;
    refused(go(Some(human), "00", true, 1), 404, "Bot not found or not invited");
    let x = go(Some(a), "00", true, 87_400).ok().unwrap();
    assert_eq!(x.account.approval_status, "approved");
    assert_eq!(x.response.status, "accepted");
    assert_eq!(x.profile.capabilities, "[]");
    assert_eq!(x.commands.unwrap()[0].name, "x");
    refused(go(Some(x.account), "00", true, 87_400), 404, "No pending invite for this bot");
}

#[test]
fn a_removed_bot_is_not_listed() {
    let mut accounts = vec![ext_accept_invite(Some(invited_account()), &accept("00"), true, 1)
        .ok()
        .unwrap()
        .account];
    let key = "a".repeat(64);
    let profile = profile_row(&key, &meta(None, None), 2);
    let commands = command_rows(&key, &vec![command("roll")]);
    let listed = ext_list_bots(&accounts, &vec![profile], &commands);
    assert_eq!(listed.len(), 1);
    assert_eq!(listed[0].name, "Robo");
    assert_eq!(listed[0].commands[0].name, "roll");
    refused(
        ext_remove_bot(&holding(&[]), &mut accounts, &key),
        403,
        "Missing permission: admin",
    );
    let m = holding(&["admin"]);
    assert_eq!(ext_remove_bot(&m, &mut accounts, &key).ok(), Some(204));
    assert!(ext_list_bots(&accounts, &vec![], &vec![]).is_empty());
    assert_eq!(ext_remove_bot(&m, &mut accounts, "ghost").ok(), Some(204));
}

#[test]
fn a_bot_keeps_its_own_profile() {
    let caps = Some(vec![text("can_read_message_content")]);
    let profile = profile_row("k", &meta(caps.clone(), None), 2);
    assert_eq!(profile.capabilities, "[\"can_read_message_content\"]");
    let rows = command_rows("k", &vec![command("roll")]);
    assert_eq!(rows[0].scope, "channel");
    assert_eq!(rows[0].privileged, 1);
    assert_eq!(rows[0].cooldown_seconds, 3);
    let me = ext_bot_me(Some(1), &Some(profile), &rows).ok().unwrap();
    assert_eq!(Some(me.capabilities), caps);
    assert_eq!(me.commands[0].privileged, Some(true));
    refused(ext_bot_me(Some(1), &None, &rows), 404, "Bot profile not found");
    refused(ext_bot_me(Some(0), &None, &rows), 403, "Not a bot identity");
    refused(ext_bot_me(None, &None, &rows), 403, "Not a bot identity");
    let (p, me) = ext_update_bot_profile(Some(1), "k", &meta(None, None), &rows, 9).ok().unwrap();
    assert_eq!(p.updated_at, 9);
    assert_eq!(me.name, "Robo");
    let req = UpdateCommandsRequest { commands: vec![command("a"), command("b")] };
    assert_eq!(ext_update_bot_commands(Some(1), "k", &req).ok().unwrap().len(), 2);
    refused(ext_update_bot_commands(None, "k", &req), 403, "Not a bot identity");
}

#[test]
fn message_subscriptions_name_their_channels() {
    let sub = |event: &str, channels: Option<&[&str]>| BotSubscription {
        event: text(event),
        channels: channels.map(|c| c.iter().map(|x| text(x)).collect()),
    };
    let go = |s: Vec<BotSubscription>| {
        ext_update_bot_subscriptions(Some(1), "k", &UpdateSubscriptionsRequest { subscriptions: s })
    };
    let (rows, answer) = go(vec![
        sub("member.joined", None),
        sub("message.created", Some(&["a", "b"])),
        sub("message.mention_bot", Some(&[])),
    ])
    .ok()
    .unwrap();
    assert_eq!(answer.count, 4);
    let channels: Vec<&str> = rows.iter().map(|r| r.channel_id.as_str()).collect();
    assert_eq!(channels, vec!["", "a", "b", ""]);
    assert!(rows.iter().all(|r| r.bot_pubkey == "k"));
    refused(
        go(vec![sub("message.created", Some(&[]))]),
        400,
        "Subscription 'message.created' requires an explicit channels list",
    );
}

fn logged(seq: i64, at: i64, payload: &str) -> AuditLogRow {
    AuditLogRow {
        seq,
        event_type: if seq % 2 == 0 { text("even") } else { text("odd") },
        at,
        actor_pubkey: None,
        target_pubkey: None,
        channel_id: None,
        payload_json: text(payload),
    }
}

#[test]
fn the_pages_of_the_log_join() {
    let admin = holding(&["admin"]);
    let rows: Vec<AuditLogRow> =
        (1..=5).map(|i| logged(i, i * 10, if i == 2 { "broken" } else { "{\"a\":1}" })).collect();
    let ask = |cursor: Option<i64>, limit: Option<i64>, event: Option<&str>| AuditLogQuery {
        event_type: event.map(|e| e.to_string()),
        since: None,
        until: None,
        cursor,
        limit,
    };
    let first = admin_audit_log(&admin, &ask(None, Some(2), None), &rows).ok().unwrap();
    assert_eq!(first.entries.len(), 2);
    assert_eq!(first.next_cursor, Some(2));
    assert_eq!(first.entries[0].payload, "{\"a\":1}");
    assert_eq!(first.entries[1].payload, "null");
    let rest = admin_audit_log(&admin, &ask(first.next_cursor, None, None), &rows).ok().unwrap();
    let seqs: Vec<i64> = rest.entries.iter().map(|e| e.seq).collect();
    assert_eq!(seqs, vec![3, 4, 5]);
    assert_eq!(rest.next_cursor, None);
    let even = admin_audit_log(&admin, &ask(None, Some(0), Some("even")), &rows).ok().unwrap();
    assert_eq!(even.entries.len(), 1);
    assert_eq!(even.next_cursor, Some(2));
    let mut q = ask(None, None, None);
    q.since = Some(20);
    q.until = Some(40);
    assert_eq!(admin_audit_log(&admin, &q, &rows).ok().unwrap().entries.len(), 3);
    refused(admin_audit_log(&holding(&[]), &q, &rows), 403, "Missing permission: admin");
}

fn text_of(p: &Payload, key: &str) -> Option<String> {
    match p {
        Payload::Object(f) => f.iter().rev().find(|x| x.key == key).and_then(|x| match &x.value {
            JsonValue::Text(s) => Some(s.clone()),
            JsonValue::Raw(_) => None,
        }),
        Payload::Other(_) => None,
    }
}

fn message_payload() -> Payload {
    Payload::Object(vec![
        field("content", JsonValue::Text("z".repeat(150))),
        field("attachments", JsonValue::Raw(text("[]"))),
        field("sender", JsonValue::Text(text("me"))),
    ])
}

#[test]
fn a_bot_that_may_not_read_sees_a_preview() {
    let shown = maybe_redact_message_content(&None, &message_payload());
    assert_eq!(text_of(&shown, "content"), None);
    assert_eq!(text_of(&shown, "content_preview").unwrap().len(), 100);
    assert_eq!(text_of(&shown, "sender").as_deref(), Some("me"));
    match &shown {
        Payload::Object(f) => assert!(!holds_key(f, "attachments")),
        Payload::Other(_) => panic!("an object was expected"),
    }
    let reader = Some(text("[\"can_read_message_content\"]"));
    let shown = maybe_redact_message_content(&reader, &message_payload());
    assert_eq!(text_of(&shown, "content").unwrap().len(), 150);
    let unreadable = Some(text("can_read_message_content"));
    let shown = maybe_redact_message_content(&unreadable, &message_payload());
    assert_eq!(text_of(&shown, "content"), None);
    let other = maybe_redact_message_content(&None, &Payload::Other(text("7")));
    assert!(matches!(other, Payload::Other(s) if s == "7"));
}

#[test]
fn payloads_are_copied() {
    let p = copy_payload(&message_payload());
    assert_eq!(text_of(&p, "sender").as_deref(), Some("me"));
    assert!(matches!(copy_value(&JsonValue::Raw(text("1"))), JsonValue::Raw(s) if s == "1"));
    assert!(matches!(nullable(&None), JsonValue::Raw(s) if s == "null"));
    assert!(matches!(nullable(&Some(text("x"))), JsonValue::Text(s) if s == "x"));
}

fn sub(bot: &str, event: &str, channel: &str) -> Subscription {
    Subscription { bot_pubkey: text(bot), event_type: text(event), channel_id: text(channel) }
}

#[test]
fn an_event_reaches_the_bots_that_asked_for_it() {
    let event = HubEvent {
        event_type: text("message.created"),
        actor: Some(text("me")),
        target: None,
        channel_id: Some(text("c")),
        payload: message_payload(),
    };
    let subs = vec![
        sub("here", "message.created", "c"),
        sub("here", "message.created", ""),
        sub("elsewhere", "message.created", "d"),
        sub("other", "member.joined", ""),
        sub("offline", "message.created", "c"),
        sub("shut", "message.created", ""),
        sub("reader", "message.created", "c"),
    ];
    let scopes = vec![ChannelScope { bot_pubkey: text("shut"), channel_id: text("d") }];
    let caps = vec![BotCapabilities {
        pubkey: text("reader"),
        capabilities: Some(text("[\"can_read_message_content\"]")),
    }];
    let connected: Vec<String> =
        ["here", "elsewhere", "other", "shut", "reader"].iter().map(|x| text(x)).collect();
    let sent = publish_hub_event(&event, 12, 99, "https://h", &subs, &scopes, &caps, &connected);
    assert_eq!(sent.len(), 2);
    assert_eq!(sent[0].bot_pubkey, "here");
    assert_eq!(sent[0].seq, 12);
    assert_eq!(sent[0].at, 99);
    assert_eq!(text_of(&sent[0].payload, "content"), None);
    assert_eq!(sent[1].bot_pubkey, "reader");
    assert!(text_of(&sent[1].payload, "content").is_some());
    assert!(sent[0].replayed.is_none());
    assert!(bot_in_scope(&scopes, "here", &Some(text("c"))));
    assert!(bot_in_scope(&scopes, "shut", &None));
    assert!(!bot_in_scope(&scopes, "shut", &Some(text("c"))));
}

fn kept(seq: i64, at: i64) -> AuditRow {
    AuditRow {
        seq,
        event_type: text("member.joined"),
        at,
        actor_pubkey: Some(text("me")),
        target_pubkey: None,
        channel_id: None,
        payload: Payload::Object(vec![]),
    }
}

#[test]
fn what_was_missed_is_told_again_within_three_days() {
    let now: i64 = 1_000_000;
    let old = now - 259_200;
    let rows = vec![kept(5, old), kept(6, now - 1), kept(7, now)];
    let subs = vec![sub("b", "member.joined", "")];
    let go = |since: i64, rows: &Vec<AuditRow>| {
        replay_events_for_bot(rows, "b", since, now, "https://h", &subs, &vec![], &None)
    };
    let plan = go(5, &rows);
    match &plan {
        ReplayPlan::Send(e) => {
            assert_eq!(e.len(), 2);
            assert_eq!(e[0].seq, 6);
            assert_eq!(e[0].replayed.as_ref().unwrap().actor_pubkey.as_deref(), Some("me"));
        }
        ReplayPlan::Unavailable { .. } => panic!("the events were expected"),
    }
    assert!(matches!(replay_result(&plan, 2), ReplayResult::Complete { replayed: 2 }));
    let gone = go(1, &rows);
    assert!(matches!(gone, ReplayPlan::Unavailable { earliest_seq: 5, .. }));
    assert!(matches!(replay_result(&gone, 0), ReplayResult::Unavailable { earliest_seq: 5, .. }));
    match go(0, &vec![]) {
        ReplayPlan::Send(e) => assert!(e.is_empty()),
        ReplayPlan::Unavailable { .. } => panic!("nothing was missed"),
    }
    assert_eq!(current_seq(None), 0);
    assert_eq!(current_seq(Some(8)), 8);
}

#[test]
fn an_event_is_logged_once_and_whole() {
    let event = HubEvent {
        event_type: text("message.created"),
        actor: Some(text("me")),
        target: Some(text("you")),
        channel_id: Some(text("c")),
        payload: message_payload(),
    };
    let row = log_row(&event, 41, 99);
    assert_eq!((row.seq, row.at), (42, 99));
    assert_eq!(row.event_type, "message.created");
    assert_eq!(row.actor_pubkey.as_deref(), Some("me"));
    assert_eq!(row.target_pubkey.as_deref(), Some("you"));
    assert_eq!(row.channel_id.as_deref(), Some("c"));
    assert!(text_of(&row.payload, "content").is_some());
    let subs = vec![sub("b", "message.created", "c")];
    match replay_events_for_bot(&vec![row], "b", 41, 100, "https://h", &subs, &vec![], &None) {
        ReplayPlan::Send(e) => {
            assert_eq!(e.len(), 1);
            assert_eq!(e[0].seq, 42);
            assert!(text_of(&e[0].payload, "content").is_none());
        }
        ReplayPlan::Unavailable { .. } => panic!("the event was expected"),
    }
}

#[test]
fn a_bot_is_told_again_of_its_own_channels_only() {
    let now: i64 = 1_000_000;
    let here = |seq: i64, channel: &str| AuditRow {
        channel_id: Some(text(channel)),
        ..kept(seq, now)
    };
    let rows = vec![here(1, "a"), here(2, "b"), kept(3, now), here(4, "a")];
    let seqs = |subs: Vec<Subscription>, scopes: Vec<ChannelScope>| -> Vec<i64> {
        match replay_events_for_bot(&rows, "x", 0, now, "https://h", &subs, &scopes, &None) {
            ReplayPlan::Send(e) => e.iter().map(|e| e.seq).collect(),
            ReplayPlan::Unavailable { .. } => panic!("the events were expected"),
        }
    };
    assert_eq!(seqs(vec![sub("x", "member.joined", "a")], vec![]), vec![1, 4]);
    assert_eq!(seqs(vec![sub("x", "member.joined", "")], vec![]), vec![1, 2, 3, 4]);
    let scope = ChannelScope { bot_pubkey: text("x"), channel_id: text("b") };
    assert_eq!(seqs(vec![sub("x", "member.joined", "")], vec![scope]), vec![2, 3]);
    assert!(seqs(vec![sub("y", "member.joined", "a")], vec![]).is_empty());
}

#[test]
fn a_session_is_warned_of_once() {
    let session = |token: &str, is_bot: bool, expires_at: Option<i64>, warned: Option<i64>| SessionRow {
        token: text(token),
        public_key: format!("key of {token}"),
        is_bot,
        expires_at,
        expiry_warned_at: warned,
    };
    let now: i64 = 1_000_000;
    let sessions = vec![
        session("soon", true, Some(now + 259_200), None),
        session("later", true, Some(now + 259_201), None),
        session("told", true, Some(now), Some(1)),
        session("human", false, Some(now), None),
        session("ever", true, None, None),
    ];
    let w = tick(&sessions, &vec![text("key of soon")], now);
    assert_eq!(w.len(), 1);
    assert_eq!(w[0].token, "soon");
    assert!(w[0].push);
    assert!(!tick(&sessions, &vec![], now)[0].push);
}

#[test]
fn a_field_is_found_under_its_key() {
    let f: Vec<JsonField> = vec![field("a", JsonValue::Raw(text("1")))];
    assert!(holds_key(&f, "a"));
    assert!(!holds_key(&f, "b"));
}
