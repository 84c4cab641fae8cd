use voxply::hub::badges::{
    accept_pending, badge_payload, decline_pending, delete_badge, issue_badge, list_badges,
    list_issued, list_pending, load_active_badges, offer_claim, recipient_url, BadgeOfferRow, BadgePayload,
    HubBadgeRow, IssueBadgeRequest, WithPayload,
};
use voxply::hub::channels::{voice_active_users, voice_channel_participants, voice_populations};
use voxply::hub::chat_models::{ChatEvent, MessageResponse, ReplyContext, WsServerMessage};
use voxply::hub::federation::{challenge_to_sign, endpoint_url, post_badge_offer, Endpoint};
use voxply::hub::games::{
    create_session, end_session, fetch_open_session, game_id, get_session, get_shared_kv,
    install_game, join_session, merge_state, patch_state, set_shared_kv, CreateSessionRequest,
    GameMessage, GameSessionRow, GameSessionState, InstallGameRequest, KvEntry, PatchStateRequest,
    SetKvRequest,
};
use voxply::hub::moderation::ChannelBanResponse;
use voxply::hub::payload::{field, JsonValue, Payload};
use voxply::hub::permissions::{user_permissions, RolePermission, RoleRow, UserPermissions};
use voxply::hub::state::{DmEvent, ScreenChunkEvent};
use voxply::hub::voice::{display_name, get_voice_participants, UserName, Voice};
use voxply::hub::ws::{
    auto_subscribed, connect, event_for, ws_handler, Action, ChannelKind, Connection, JoinFacts, Live,
};
use voxply::hub::HubError;
use voxply::table::{Pair, Table};

fn text(s: &str) -> String {
    s.to_string()
}

fn holding(permissions: &[&str]) -> UserPermissions {
    let role = RoleRow { id: text("r"), name: text("r"), priority: 1, created_at: 0 };
    let grants: Vec<RolePermission> = permissions
        .iter()
        .map(|p| RolePermission { role_id: text("r"), permission: text(p) })
        .collect();
    user_permissions(vec![role], &grants)
}

fn refused<T>(r: Result<T, HubError>, status: u16, message: &str) {
    let e = r.err().unwrap();
    assert_eq!(e.message, message);
    assert_eq!(e.status, status);
}

fn names() -> Vec<UserName> {
    vec![
        UserName { public_key: text("a"), display_name: Some(text("Ada")) },
        UserName { public_key: text("b"), display_name: None },
    ]
}

#[test]
fn voice_is_relayed_within_a_channel() {
    let mut v = Voice::new();
    v.join("c", "a", 10);
    v.join("c", "b", 11);
    v.join("d", "e", 12);
    assert_eq!(v.relay_targets(10), vec![11]);
    v.join("c", "x", 9);
    assert_eq!(v.relay_targets(10), vec![11, 9]);
    assert_eq!(v.relay_targets(9), vec![10, 11]);
    v.leave("c", "x");
    assert!(v.relay_targets(12).is_empty());
    assert!(v.relay_targets(99).is_empty());
    assert_eq!(v.participants("c"), vec![text("a"), text("b")]);
    assert_eq!(voice_populations(&v).len(), 2);
    assert_eq!(voice_active_users(&v).len(), 3);
    let all = voice_channel_participants(&v, &names());
    let c = all.iter().find(|x| x.0 == "c").unwrap();
    assert_eq!(c.1[0].display_name.as_deref(), Some("Ada"));
    assert_eq!(get_voice_participants(&v, "d", &names())[0].display_name, None);
    assert_eq!(display_name(&names(), "a").as_deref(), Some("Ada"));
    v.leave("c", "a");
    assert_eq!(v.participants("c"), vec![text("b")]);
    assert!(v.relay_targets(11).is_empty());
    assert_eq!(v.active_users().len(), 2);
    assert_eq!(v.populations().len(), 2);
}

#[test]
fn joining_and_leaving_undo_each_other() {
    let mut v = Voice::new();
    v.join("c", "a", 10);
    v.leave("c", "a");
    assert!(v.participants("c").is_empty());
    assert!(v.populations().is_empty());
    assert_eq!(v.members.len(), 0);
    assert_eq!(v.addresses.len(), 0);
}

#[test]
fn a_token_opens_a_connection_while_its_key_stands() {
    assert_eq!(ws_handler(Some(text("k")), false).ok(), Some(text("k")));
    refused(ws_handler(None, false), 401, "Invalid token");
    refused(ws_handler(Some(text("k")), true), 401, "Key has been revoked");
}

fn subscribed(channels: &[&str]) -> Table<String, ()> {
    let kinds: Vec<ChannelKind> =
        channels.iter().map(|c| ChannelKind { id: text(c), is_category: false }).collect();
    auto_subscribed(&kinds, &vec![], "any")
}

fn client(live: &mut Live, key: &str, channels: &[&str]) -> Connection {
    connect(live, key, false, vec![text("talk")], subscribed(channels), 5, 100).0
}

#[test]
fn a_user_hears_the_channels_that_are_open_to_them() {
    let kinds = vec![
        ChannelKind { id: text("open"), is_category: false },
        ChannelKind { id: text("folder"), is_category: true },
        ChannelKind { id: text("shut"), is_category: false },
    ];
    let bans = vec![ChannelBanResponse {
        channel_id: text("shut"),
        target_public_key: text("me"),
        banned_by: text("x"),
        reason: None,
        created_at: 0,
    }];
    let t = auto_subscribed(&kinds, &bans, "me");
    assert_eq!(t.len(), 1);
    assert!(t.contains(&text("open")));
    assert_eq!(auto_subscribed(&kinds, &bans, "you").len(), 2);
}

#[test]
fn a_connection_is_greeted_and_told_of_streams() {
    let mut live = Live::new();
    let a = client(&mut live, "a", &["c"]);
    let r = a.on_share_start(&mut live.shares, "c", "s", "screen", "video/webm", true, 50);
    assert!(matches!(r, Action::Chat(ChatEvent::ScreenShareStarted { .. }, _)));
    let mut a = a;
    a.on_share_chunk("c", "s", 7, true);
    match a.on_binary(&mut live.shares, vec![1, 2]).unwrap() {
        Action::Chunk(e) => {
            assert_eq!((e.seq, e.is_init, e.data), (7, true, vec![1, 2]));
        }
        _ => panic!("a chunk was expected"),
    }
    assert!(a.on_binary(&mut live.shares, vec![3]).is_none());
    let (b, told) = connect(&mut live, "b", true, vec![], subscribed(&["c"]), 42, 100);
    assert!(matches!(told[0], Action::Hello(42)));
    assert!(matches!(
        &told[1],
        Action::Send(WsServerMessage::ScreenShareStarted { sharer_pubkey, .. }) if sharer_pubkey == "a"
    ));
    assert!(matches!(
        &told[2],
        Action::Send(WsServerMessage::ScreenShareChunkOut { seq: 0, is_init: true, .. })
    ));
    assert!(matches!(&told[3], Action::SendBinary(d) if d == &vec![1, 2]));
    assert!(live.bots.contains(&text("b")));
    assert!(live.online.contains(&text("a")));
    let late = connect(&mut live, "late", false, vec![], subscribed(&["c"]), 42, 50).1;
    assert_eq!(late.len(), 1);
    let mut late = connect(&mut live, "late", false, vec![], subscribed(&[]), 42, 50).0;
    assert_eq!(late.on_subscribe(&live, "c").len(), 3);
    assert_eq!(late.on_subscribe(&live, "c").len(), 0);
    let refused = b.on_share_start(&mut live.shares, "c", "t", "screen", "m", false, 60);
    assert!(matches!(
        refused,
        Action::Send(WsServerMessage::Error { message, .. })
            if message == "Someone else is already sharing in this channel."
    ));
    assert_eq!(live.shares.len(), 1);
    a.disconnect(&mut live);
    assert_eq!(live.shares.len(), 0);
    assert!(!live.online.contains(&text("a")));
    b.disconnect(&mut live);
    assert!(!live.bots.contains(&text("b")));
}

#[test]
fn a_share_ends_when_it_is_stopped() {
    let mut live = Live::new();
    let a = client(&mut live, "a", &["c"]);
    a.on_share_start(&mut live.shares, "c", "s", "screen", "m", false, 1);
    let r = a.on_share_stop(&mut live.shares, "c", "s");
    assert!(matches!(r, Action::Chat(ChatEvent::ScreenShareStopped { .. }, _)));
    assert_eq!(live.shares.len(), 0);
}

fn message(to: Option<&str>) -> ChatEvent {
    ChatEvent::New {
        channel_id: text("c"),
        message: MessageResponse {
            id: text("m"),
            channel_id: text("c"),
            sender: text("x"),
            sender_name: None,
            content: text("hi"),
            created_at: 0,
            edited_at: None,
            attachments: vec![],
            reactions: vec![],
            reply_to: None,
            visible_to_pubkey: to.map(|t| t.to_string()),
        },
    }
}

#[test]
fn events_reach_those_who_may_hear_them() {
    let mut live = Live::new();
    let mut a = client(&mut live, "a", &["c"]);
    assert_eq!(a.on_chat_event(&message(None), text("1")).as_deref(), Some("1"));
    assert_eq!(a.on_chat_event(&message(Some("b")), text("2")), None);
    assert_eq!(a.on_chat_event(&message(Some("a")), text("3")).as_deref(), Some("3"));
    let edited = |to: Option<&str>| match message(to) {
        ChatEvent::New { channel_id, message } => ChatEvent::Edited { channel_id, message },
        other => other,
    };
    assert_eq!(a.on_chat_event(&edited(None), text("e")).as_deref(), Some("e"));
    assert_eq!(a.on_chat_event(&edited(Some("b")), text("e")), None);
    assert_eq!(a.on_chat_event(&edited(Some("a")), text("e")).as_deref(), Some("e"));
    let typing = |key: &str| ChatEvent::Typing {
        channel_id: text("c"),
        public_key: text(key),
        display_name: None,
        typing: true,
    };
    assert_eq!(a.on_chat_event(&typing("a"), text("4")), None);
    assert_eq!(a.on_chat_event(&typing("b"), text("5")).as_deref(), Some("5"));
    let answering = |to: &str| match message(None) {
        ChatEvent::New { channel_id, mut message } => {
            message.reply_to = Some(ReplyContext {
                message_id: text("p"),
                sender: text("x"),
                sender_name: None,
                content_preview: text("psst"),
                visible_to_pubkey: Some(text(to)),
            });
            ChatEvent::New { channel_id, message }
        }
        other => other,
    };
    let answered = |e: ChatEvent| match e {
        ChatEvent::New { message, .. } => message.reply_to.is_some(),
        _ => panic!("a message was expected"),
    };
    assert!(!a.hides_answered(&message(None)));
    assert!(!a.hides_answered(&answering("a")));
    assert!(a.hides_answered(&answering("b")));
    assert!(answered(event_for(answering("a"), "a")));
    assert!(!answered(event_for(answering("b"), "a")));
    assert!(!a.hides_answered(&event_for(answering("b"), "a")));
    assert_eq!(a.on_game_event("c", text("g")).as_deref(), Some("g"));
    a.on_unsubscribe("c");
    assert_eq!(a.on_game_event("c", text("g")), None);
    assert_eq!(a.on_chat_event(&message(None), text("6")), None);
    match a.on_typing("c", true, &Some(text("Ada"))) {
        Action::Chat(ChatEvent::Typing { public_key, .. }, _) => assert_eq!(public_key, "a"),
        _ => panic!("typing was expected"),
    }
}

#[test]
fn what_happens_during_a_replay_is_kept_back() {
    let mut live = Live::new();
    let mut human = client(&mut live, "a", &["c"]);
    assert!(!human.begin_resume());
    let mut bot = connect(&mut live, "b", true, vec![], subscribed(&["c"]), 0, 0).0;
    assert!(bot.begin_resume());
    assert_eq!(bot.on_chat_event(&message(None), text("1")), None);
    assert_eq!(bot.on_bot_push(text("2")), None);
    assert_eq!(bot.on_game_event("c", text("g")), None);
    assert_eq!(bot.end_resume(), vec![text("1"), text("2"), text("g")]);
    assert_eq!(bot.on_bot_push(text("3")).as_deref(), Some("3"));
    assert!(bot.end_resume().is_empty());
}

fn join_facts() -> JoinFacts {
    JoinFacts {
        voice_muted: false,
        min_talk_power: 0,
        priority: 0,
        hub_udp_port: 3001,
        names: names(),
    }
}

fn error_of(a: &Action) -> String {
    match a {
        Action::Send(WsServerMessage::Error { message, .. }) => message.clone(),
        _ => panic!("an error was expected"),
    }
}

#[test]
fn voice_is_joined_by_who_may_talk() {
    let mut live = Live::new();
    let mut a = client(&mut live, "a", &["c"]);
    let mut f = join_facts();
    f.voice_muted = true;
    let r = a.on_voice_join(&mut live.voice, "v", 10, &f);
    assert_eq!(error_of(&r[0]), "You are voice-muted on this hub.");
    let mut f = join_facts();
    f.min_talk_power = 5;
    f.priority = 4;
    let r = a.on_voice_join(&mut live.voice, "v", 10, &f);
    assert_eq!(error_of(&r[0]), "This channel requires role priority 5 to talk; you have 4.");
    assert!(live.voice.participants("v").is_empty());
    f.priority = 5;
    let r = a.on_voice_join(&mut live.voice, "v", 10, &f);
    assert_eq!(r.len(), 3);
    match &r[0] {
        Action::Send(WsServerMessage::VoiceJoined { hub_udp_port, participants, .. }) => {
            assert_eq!(*hub_udp_port, 3001);
            assert_eq!(participants[0].display_name.as_deref(), Some("Ada"));
        }
        _ => panic!("the client was expected to be told"),
    }
    assert!(matches!(&r[2], Action::Publish(e) if e.event_type == "member.joined"));

    let mut b = client(&mut live, "b", &[]);
    b.on_voice_join(&mut live.voice, "v", 11, &join_facts());
    let speaking = match a.on_voice_speaking("v", true) {
        Action::Voice(_, m) => m,
        _ => panic!("a voice message was expected"),
    };
    assert!(b.on_voice_event("v", &speaking));
    assert!(!a.on_voice_event("v", &speaking));
    assert!(!b.on_voice_event("w", &speaking));
    let r = a.on_voice_leave(&mut live.voice, "v");
    assert!(matches!(&r[1], Action::Publish(e) if e.event_type == "member.left"));
    assert_eq!(live.voice.participants("v"), vec![text("b")]);
    assert!(b.disconnect(&mut live).is_some());
    assert!(live.voice.participants("v").is_empty());
}

#[test]
fn conversations_are_heard_by_those_in_them() {
    let mut live = Live::new();
    let a = client(&mut live, "a", &[]);
    let dm = |conversation: &str, sender: &str| DmEvent::Message {
        conversation_id: text(conversation),
        sender: text(sender),
        sender_name: None,
        content: text("psst"),
        timestamp: 3,
    };
    assert_eq!(dm("talk", "b").conversation_id(), "talk");
    assert!(matches!(a.on_dm(dm("talk", "b")), Some(WsServerMessage::DirectMessage { .. })));
    assert!(a.on_dm(dm("talk", "a")).is_none());
    assert!(a.on_dm(dm("other", "b")).is_none());
    match a.on_dm_typing("talk", true, &None) {
        Action::Dm(e) => assert_eq!(e.sender(), "a"),
        _ => panic!("an event was expected"),
    }
}

#[test]
fn chunks_reach_the_others_in_the_channel() {
    let mut live = Live::new();
    let a = client(&mut live, "a", &["c"]);
    let chunk = |channel: &str, sharer: &str| ScreenChunkEvent {
        channel_id: text(channel),
        stream_id: text("s"),
        sharer_pubkey: text(sharer),
        seq: 4,
        is_init: false,
        data: vec![9],
    };
    assert_eq!(a.on_chunk(chunk("c", "b")).unwrap().1, vec![9]);
    assert!(a.on_chunk(chunk("c", "a")).is_none());
    assert!(a.on_chunk(chunk("d", "b")).is_none());
}

#[test]
fn a_component_is_used_once_in_three_seconds() {
    let mut live = Live::new();
    let mut a = client(&mut live, "a", &[]);
    let mut go = |id: &str, now: u64| {
        matches!(a.on_interaction(text("m"), text(id), vec![], now), Action::Dispatch { .. })
    };
    assert!(go("x", 10_000));
    assert!(!go("x", 12_999));
    assert!(go("y", 12_999));
    assert!(go("x", 13_000));
    for i in 0..600 {
        assert!(go(&format!("z{i}"), 100_000));
    }
    assert!(a.interactions.len() <= 600);
    assert!(a.interactions.get(&text("x")).is_none());
}

fn install(id: Option<&str>) -> InstallGameRequest {
    InstallGameRequest {
        name: text("Chess"),
        entry_url: text("abc"),
        id: id.map(|i| i.to_string()),
        description: None,
        version: None,
        thumbnail_url: None,
        author: None,
        min_players: None,
        max_players: Some(2),
    }
}

#[test]
fn a_game_is_known_by_its_address() {
    let m = holding(&["manage_games"]);
    assert_eq!(game_id(&install(None)), "game-ba7816bf8f01cfea");
    assert_eq!(game_id(&install(Some("chess"))), "chess");
    let (g, shown) = install_game(&m, &install(None), &None, "me", 5).ok().unwrap();
    assert_eq!(g.installed_by, "me");
    assert_eq!(shown.version, "1.0.0");
    assert_eq!((shown.min_players, shown.max_players), (1, 2));
    let (again, _) = install_game(&m, &install(None), &Some(g), "you", 9).ok().unwrap();
    assert_eq!(again.installed_by, "me");
    assert_eq!(again.installed_at, 5);
    refused(
        install_game(&holding(&[]), &install(None), &None, "me", 5),
        403,
        "Missing permission: manage_games",
    );
}

fn session(sessions: &mut Table<String, GameSessionState>) -> GameSessionRow {
    let req = CreateSessionRequest { game_id: text("g"), channel_id: text("c") };
    let p = holding(&["start_game"]);
    create_session(&p, sessions, "c", &req, true, true, "host", "s", "2024").ok().unwrap().row
}

#[test]
fn a_session_is_joined_once_and_ended_by_its_host() {
    let mut sessions: Table<String, GameSessionState> = Table::new();
    let req = CreateSessionRequest { game_id: text("g"), channel_id: text("c") };
    let p = holding(&["start_game"]);
    let none = holding(&[]);
    let mut go = |p: &UserPermissions, game: bool, channel: bool| {
        create_session(p, &mut sessions, "c", &req, game, channel, "host", "s", "2024")
    };
    refused(go(&none, true, true), 403, "Missing permission: start_game");
    refused(go(&p, false, true), 404, "Game not found on this hub");
    refused(go(&p, true, false), 404, "Channel not found");
    let row = Some(session(&mut sessions));
    let id = text("s");
    let s = get_session(&sessions, &row, &id).ok().unwrap();
    assert_eq!(s.players, vec![text("host")]);
    assert_eq!(s.state_json, "{}");
    let (e, s) = join_session(&mut sessions, &row, "you", &id).ok().unwrap();
    assert!(matches!(e.message, GameMessage::SessionJoined { player_pubkey, .. } if player_pubkey == "you"));
    assert_eq!(s.players.len(), 2);
    let (_, s) = join_session(&mut sessions, &row, "you", &id).ok().unwrap();
    assert_eq!(s.players.len(), 2);
    assert!(end_session(&mut sessions, &row, &none, "you", &id, "2025").is_err());
    let (ended, e) = end_session(&mut sessions, &row, &none, "host", &id, "2025").ok().unwrap();
    assert!(matches!(e.message, GameMessage::SessionEnded { .. }));
    assert_eq!(ended.ended_at.as_deref(), Some("2025"));
    assert_eq!(sessions.len(), 0);
    let ended = Some(ended);
    refused(fetch_open_session(&ended), 410, "Session has ended");
    refused(join_session(&mut sessions, &ended, "you", &id), 410, "Session has ended");
    refused(get_session(&sessions, &None, &id), 404, "Session not found");
}

fn object(members: &[(&str, &str)]) -> Payload {
    Payload::Object(members.iter().map(|(k, v)| field(k, JsonValue::Raw(text(v)))).collect())
}

fn raw(p: &Payload, key: &str) -> Option<String> {
    match p {
        Payload::Object(f) => f.iter().rev().find(|x| x.key == key).map(|x| match &x.value {
            JsonValue::Raw(s) => s.clone(),
            JsonValue::Text(s) => s.clone(),
        }),
        Payload::Other(_) => None,
    }
}

#[test]
fn the_state_is_merged_by_its_host() {
    let m = merge_state(&object(&[("a", "1"), ("b", "2")]), &object(&[("b", "3"), ("c", "null")]));
    assert_eq!(raw(&m, "a").as_deref(), Some("1"));
    assert_eq!(raw(&m, "b").as_deref(), Some("3"));
    assert_eq!(raw(&m, "c").as_deref(), Some("null"));
    let m = merge_state(&m, &object(&[("b", "3"), ("c", "null")]));
    assert_eq!(raw(&m, "b").as_deref(), Some("3"));
    let m = merge_state(&object(&[("a", "1")]), &Payload::Other(text("7")));
    assert!(matches!(m, Payload::Other(s) if s == "7"));

    let mut sessions: Table<String, GameSessionState> = Table::new();
    let row = Some(session(&mut sessions));
    let id = text("s");
    let none = holding(&[]);
    let req = || PatchStateRequest { patch: object(&[("a", "1")]) };
    refused(
        patch_state(&mut sessions, &row, &none, "you", &id, &object(&[]), req()),
        403,
        "Only the host can patch session state",
    );
    let (new, _) = patch_state(&mut sessions, &row, &none, "host", &id, &object(&[]), req())
        .ok()
        .unwrap();
    assert_eq!(raw(&new, "a").as_deref(), Some("1"));
    let kept = sessions.get(&id).unwrap();
    assert_eq!(raw(&kept.in_memory_state, "a").as_deref(), Some("1"));
    let admin = holding(&["admin"]);
    assert!(patch_state(&mut sessions, &row, &admin, "you", &id, &object(&[]), req()).is_ok());
}

#[test]
fn a_shared_value_is_read_as_it_was_written() {
    let mut sessions: Table<String, GameSessionState> = Table::new();
    let row = Some(session(&mut sessions));
    let mut store: Table<Pair, KvEntry> = Table::new();
    let set = |v: &str| SetKvRequest { value: text(v) };
    assert_eq!(set_shared_kv(&mut store, &row, "s", "k", set("1"), text("t1")).ok(), Some(204));
    assert_eq!(set_shared_kv(&mut store, &row, "s", "l", set("9"), text("t2")).ok(), Some(204));
    assert_eq!(set_shared_kv(&mut store, &row, "s", "k", set("2"), text("t3")).ok(), Some(204));
    let r = get_shared_kv(&store, "s", "k").ok().unwrap();
    assert_eq!((r.value.as_str(), r.updated_at.as_str()), ("2", "t3"));
    assert_eq!(get_shared_kv(&store, "s", "l").ok().unwrap().value, "9");
    refused(get_shared_kv(&store, "s", "x"), 404, "Key not found");
    refused(
        set_shared_kv(&mut store, &None, "s", "k", set("3"), text("t")),
        404,
        "Session not found",
    );
}

fn says(subject: &str, expires_at: Option<&str>) -> BadgePayload {
    BadgePayload {
        issuer_pubkey: text("them"),
        issuer_url: text("https://them"),
        subject_pubkey: text(subject),
        label: text("Friend"),
        issued_at: text("2024-01-01T00:00:00Z"),
        expires_at: expires_at.map(|e| e.to_string()),
    }
}

fn offer(signature: &str, payload: Result<BadgePayload, String>) -> WithPayload<BadgeOfferRow> {
    WithPayload {
        row: BadgeOfferRow {
            id: text("o"),
            from_hub_pubkey: text("them"),
            from_hub_url: text("https://them"),
            label: text("Friend"),
            note: None,
            payload: text("{}"),
            signature: text(signature),
            created_at: text("2024"),
        },
        payload,
    }
}

#[test]
fn an_offered_badge_is_accepted_when_it_is_ours() {
    let admin = holding(&["admin"]);
    let go = |o: Option<WithPayload<BadgeOfferRow>>, signed: bool| {
        let mut offers: Vec<WithPayload<BadgeOfferRow>> = o.into_iter().collect();
        let known = offers.len();
        let r = accept_pending(&admin, &mut offers, "o", signed, "us", "b", "2025");
        assert_eq!(offers.len(), if r.is_ok() { 0 } else { known });
        r
    };
    let claim = offer_claim(&offer("0c", Ok(says("us", None))).row).unwrap();
    assert_eq!((claim.key.as_str(), claim.signature), ("them", vec![12]));
    assert_eq!(claim.message, b"{}".to_vec());
    let b = go(Some(offer("00", Ok(says("us", None)))), true).ok().unwrap();
    assert_eq!(b.issuer_pubkey, "them");
    assert_eq!(b.accepted_at, "2025");
    refused(go(None, true), 404, "Pending badge offer not found");
    refused(
        go(Some(offer("0", Ok(says("us", None)))), true),
        400,
        "Invalid signature hex in stored offer",
    );
    refused(
        go(Some(offer("00", Ok(says("us", None)))), false),
        400,
        "Badge signature verification failed",
    );
    refused(
        go(Some(offer("00", Err(text("EOF")))), true),
        500,
        "Payload parse error: EOF",
    );
    refused(
        go(Some(offer("00", Ok(says("someone", None)))), true),
        400,
        "Badge subject does not match this hub",
    );
    let none = holding(&[]);
    let mut o = vec![offer("00", Ok(says("us", None)))];
    refused(
        accept_pending(&none, &mut o, "o", true, "us", "b", "2025"),
        403,
        "Missing permission: admin",
    );
    refused(
        accept_pending(&admin, &mut o, "p", true, "us", "b", "2025"),
        404,
        "Pending badge offer not found",
    );
    assert_eq!(o.len(), 1);
    let shown = list_pending(&admin, &vec![offer("00", Ok(says("us", None)))]).ok().unwrap();
    assert_eq!(shown[0].from_hub_url, "https://them");
    refused(
        list_pending(&admin, &vec![offer("00", Err(text("EOF")))]),
        500,
        "Payload parse error: EOF",
    );
    let mut offers = vec![offer("00", Ok(says("us", None))).row];
    refused(decline_pending(&admin, &mut offers, "x"), 404, "Pending badge offer not found");
    assert_eq!(decline_pending(&admin, &mut offers, "o").ok(), Some(204));
    assert!(offers.is_empty());
}

fn held(id: &str, payload: Result<BadgePayload, String>) -> WithPayload<HubBadgeRow> {
    WithPayload {
        row: HubBadgeRow {
            id: text(id),
            issuer_pubkey: text("them"),
            issuer_url: text("https://them"),
            label: text("Friend"),
            payload: text("{}"),
            signature: text("5167"),
            accepted_at: text("2024"),
        },
        payload,
    }
}

#[test]
fn a_badge_is_shown_while_it_lasts() {
    let admin = holding(&["admin"]);
    let badges = vec![
        held("1", Ok(says("us", None))),
        held("2", Ok(says("us", Some("2024-06-01T00:00:00Z")))),
        held("3", Err(text("EOF"))),
    ];
    let at = |now: &str| load_active_badges(&badges, now).len();
    assert_eq!(at("2024-05-31T23:59:59Z"), 2);
    assert_eq!(at("2024-06-01T00:00:00Z"), 1);
    assert_eq!(load_active_badges(&badges, "2024")[0].signature, "5167");
    refused(list_badges(&admin, &badges), 500, "Payload parse error: EOF");
    let good = vec![held("1", Ok(says("us", None)))];
    assert_eq!(list_badges(&admin, &good).ok().unwrap()[0].id, "1");
    let mut rows = vec![held("1", Ok(says("us", None))).row];
    refused(delete_badge(&admin, &mut rows, "9"), 404, "Badge not found");
    assert_eq!(delete_badge(&admin, &mut rows, "1").ok(), Some(204));
    assert!(rows.is_empty());
}

#[test]
fn a_badge_is_issued_for_so_many_days() {
    let admin = holding(&["admin"]);
    let req = IssueBadgeRequest {
        recipient_hub_url: text("https://them/"),
        label: text("Friend"),
        note: None,
        expires_days: Some(30),
    };
    assert_eq!(recipient_url(&admin, &req).ok().unwrap(), "https://them");
    refused(recipient_url(&holding(&[]), &req), 403, "Missing permission: admin");
    let now: u64 = 1_704_067_200;
    let p = badge_payload(&req, "us", &Some(text("https://us")), &Ok(text("them")), now);
    let p = p.ok().unwrap();
    assert_eq!(p.issued_at, "2024-01-01T00:00:00Z");
    assert_eq!(p.expires_at.as_deref(), Some("2024-01-31T00:00:00Z"));
    assert_eq!(p.subject_pubkey, "them");
    refused(
        badge_payload(&req, "us", &None, &Err(text("timeout")), now),
        502,
        "Cannot reach recipient hub: timeout",
    );
    let copy = badge_payload(&req, "us", &None, &Ok(text("them")), now).ok().unwrap();
    refused(
        issue_badge(copy, "{}", "00", "https://them", &Some(text("no")), "i"),
        502,
        "Failed to deliver badge offer: no",
    );
    let x = issue_badge(p, "{}", "00", "https://them", &None, "i").ok().unwrap();
    assert_eq!(x.row.recipient_hub_pubkey, "them");
    assert_eq!(x.row.expires_at.as_deref(), Some("2024-01-31T00:00:00Z"));
    let listed = vec![WithPayload { row: x.row, payload: Ok(says("them", None)) }];
    assert_eq!(list_issued(&admin, &listed).ok().unwrap()[0].id, "i");
}

#[test]
fn another_hub_is_asked_at_its_addresses() {
    let at = |e: Endpoint| endpoint_url("https://h", &e);
    assert_eq!(at(Endpoint::Info), "https://h/info");
    assert_eq!(at(Endpoint::Challenge), "https://h/auth/challenge");
    assert_eq!(at(Endpoint::Verify), "https://h/auth/verify");
    assert_eq!(at(Endpoint::Channels), "https://h/channels");
    assert_eq!(at(Endpoint::Messages { channel_id: text("c") }), "https://h/channels/c/messages");
    assert_eq!(at(Endpoint::AllianceJoin { alliance_id: text("a") }), "https://h/alliances/a/join");
    assert_eq!(at(Endpoint::Alliance { alliance_id: text("a") }), "https://h/alliances/a");
    assert_eq!(
        at(Endpoint::AllianceChannels { alliance_id: text("a") }),
        "https://h/alliances/a/channels"
    );
    assert_eq!(at(Endpoint::Dm), "https://h/federation/dm");
    assert_eq!(at(Endpoint::BadgeOffer), "https://h/federation/badge-offer");
    assert_eq!(challenge_to_sign("00Ff").ok(), Some(vec![0, 255]));
    assert_eq!(challenge_to_sign("0x").err().as_deref(), Some("Invalid challenge hex from peer"));
    assert!(post_badge_offer(201, "201 Created", "").is_ok());
    assert_eq!(
        post_badge_offer(404, "404 Not Found", "gone").err().as_deref(),
        Some("Recipient returned HTTP 404 Not Found: gone")
    );
}
