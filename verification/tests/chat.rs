use voxply::hub::channels::{
    already_exists, create_channel, delete_channel, is_ancestor, list_channels, node_depth,
    read_max_depth, reorder_channels, update_channel, ChannelRow, ReorderRequest,
};
use voxply::hub::chat_models::{
    Attachment, ChatEvent, CreateChannelRequest, EditMessageRequest, PaginationParams,
    ReactionRequest, SendMessageRequest, UpdateChannelRequest, MAX_ATTACHMENTS_BYTES,
};
use voxply::hub::messages::{
    add_reaction, calls_command, delete_message, edit_message, get_messages, load_reactions,
    load_reactions_anon, may_see_answered, may_send, message_for, message_query, message_response,
    remove_reaction, send_message, MessageRow, ParentMessage, ReactionRow, Selection, SendFacts, Sent,
};
use voxply::hub::moderation::{ChannelBanResponse, MuteResponse};
use voxply::hub::payload::{JsonValue, Payload};
use voxply::hub::permissions::{user_permissions, RolePermission, RoleRow, UserPermissions};
use voxply::hub::tags::{get_tags, load_nsfw, load_tags, normalise_tag, patch_tags, PatchTagsRequest};
use voxply::hub::webhooks::{
    create_webhook, delete_webhook, post_webhook_message, sha256_hex,
    CreateWebhookRequest, WebhookPostRequest,
};
use voxply::hub::HubError;

fn text(s: &str) -> String {
    s.to_string()
}

fn holding(permissions: &[&str]) -> UserPermissions {
    let role = RoleRow { id: text("r"), name: text("r"), priority: 1, created_at: 0 };
    let grants: Vec<RolePermission> = permissions
        .iter()
        .map(|p| RolePermission { role_id: text("r"), permission: text(p) })
        .collect();
    user_permissions(vec![role], &grants)
}

fn refused<T>(r: Result<T, HubError>, status: u16, message: &str) {
    let e = r.err().unwrap();
    assert_eq!(e.message, message);
    assert_eq!(e.status, status);
}

fn channel(id: &str, parent: Option<&str>, category: bool, order: i64) -> ChannelRow {
    ChannelRow {
        id: text(id),
        name: format!("name of {id}"),
        created_by: text("me"),
        parent_id: parent.map(|p| p.to_string()),
        is_category: if category { 1 } else { 0 },
        display_order: order,
        description: None,
        icon: None,
        color: None,
        custom_icon_svg: None,
        created_at: 1,
    }
}

fn tree() -> Vec<ChannelRow> {
    vec![
        channel("top", None, true, 0),
        channel("mid", Some("top"), true, 1),
        channel("leaf", Some("mid"), false, 2),
    ]
}

fn new_channel(name: &str, parent: Option<&str>, category: bool) -> CreateChannelRequest {
    CreateChannelRequest {
        name: text(name),
        parent_id: parent.map(|p| p.to_string()),
        is_category: category,
        description: Some(text("about")),
    }
}

fn no_change() -> UpdateChannelRequest {
    UpdateChannelRequest {
        name: None,
        description: None,
        parent_id: None,
        icon: None,
        color: None,
        custom_icon_svg: None,
    }
}

fn moved_under(parent: Option<&str>) -> UpdateChannelRequest {
    UpdateChannelRequest { parent_id: Some(parent.map(|p| p.to_string())), ..no_change() }
}

#[test]
fn the_tree_has_depth_and_ancestors() {
    let rows = tree();
    let depth = |p: &str| node_depth(&rows, &Some(text(p))).ok().unwrap();
    assert_eq!(node_depth(&rows, &None).ok(), Some(0));
    assert_eq!(depth("top"), 1);
    assert_eq!(depth("mid"), 2);
    assert_eq!(depth("leaf"), 3);
    assert!(is_ancestor(&rows, "top", "leaf"));
    assert!(is_ancestor(&rows, "mid", "leaf"));
    assert!(!is_ancestor(&rows, "leaf", "top"));
    assert!(!is_ancestor(&rows, "leaf", "leaf"));
    let looped = vec![channel("a", Some("b"), true, 0), channel("b", Some("a"), true, 1)];
    refused(
        node_depth(&looped, &Some(text("a"))),
        400,
        "Channel nesting depth exceeds safety limit",
    );
    assert_eq!(read_max_depth(&None), 0);
    assert_eq!(read_max_depth(&Some(text("3"))), 3);
    assert_eq!(read_max_depth(&Some(text("deep"))), 0);
}

#[test]
fn a_channel_is_created_at_the_end() {
    let m = holding(&["manage_channels"]);
    let rows = tree();
    let (c, e) =
        create_channel("me", &m, &rows, &None, &new_channel("new", Some("mid"), false), "n", 7)
            .ok()
            .unwrap();
    assert_eq!(c.display_order, 3);
    assert_eq!(c.created_at, 7);
    assert_eq!(c.parent_id.as_deref(), Some("mid"));
    assert_eq!(c.description.as_deref(), Some("about"));
    assert_eq!(e.event_type, "channel.created");
    assert_eq!(e.channel_id.as_deref(), Some("n"));
    let (first, _) =
        create_channel("me", &m, &vec![], &None, &new_channel("x", None, true), "n", 7)
            .ok()
            .unwrap();
    assert_eq!(first.display_order, 0);
    let go = |req: CreateChannelRequest, max: &str| {
        create_channel("me", &m, &rows, &Some(text(max)), &req, "n", 7)
    };
    refused(go(new_channel("x", Some("nowhere"), false), "0"), 404, "Parent channel not found");
    refused(go(new_channel("x", Some("leaf"), false), "0"), 400, "Parent must be a category");
    refused(
        go(new_channel("x", Some("mid"), false), "2"),
        400,
        "Maximum channel depth (2) would be exceeded",
    );
    refused(
        go(new_channel("x", Some("mid"), true), "3"),
        400,
        "A category cannot be at the maximum depth (3)",
    );
    assert!(go(new_channel("x", Some("mid"), false), "3").is_ok());
    refused(
        go(new_channel("name of top", None, false), "0"),
        409,
        "Channel 'name of top' already exists",
    );
    assert_eq!(already_exists("x").message, "Channel 'x' already exists");
    let none = holding(&[]);
    refused(
        create_channel("me", &none, &rows, &None, &new_channel("x", None, false), "n", 7),
        403,
        "Missing permission: manage_channels",
    );
}

#[test]
fn a_channel_is_moved_within_the_tree_only() {
    let m = holding(&["manage_channels"]);
    let mut rows = tree();
    let mut go = |id: &str, p: Option<&str>, max: &str| {
        update_channel(&m, &mut rows, &Some(text(max)), id, &moved_under(p))
    };
    refused(go("ghost", None, "0"), 404, "Channel not found");
    refused(go("top", Some("top"), "0"), 400, "A channel can't be its own parent");
    refused(go("top", Some("ghost"), "0"), 404, "Parent channel not found");
    refused(go("top", Some("leaf"), "0"), 400, "Parent must be a category");
    refused(go("top", Some("mid"), "0"), 400, "Cannot move a channel into its own descendant");
    assert!(go("leaf", Some("top"), "0").is_ok());
    assert!(go("mid", None, "0").is_ok());
    assert_eq!(rows[1].parent_id, None);
    assert_eq!(rows[2].parent_id.as_deref(), Some("top"));
}

#[test]
fn a_move_is_bounded_as_a_creation_is() {
    let m = holding(&["manage_channels"]);
    let mut rows = vec![
        channel("p", None, true, 0),
        channel("x", None, false, 1),
        channel("q", None, true, 2),
        channel("r", Some("p"), true, 3),
    ];
    let limit = |n: &str| Some(text(n));
    let made = new_channel("new", Some("p"), false);
    assert!(create_channel("me", &m, &rows, &limit("2"), &made, "n", 1).is_ok());
    assert!(update_channel(&m, &mut rows, &limit("2"), "x", &moved_under(Some("p"))).is_ok());
    assert_eq!(rows[1].parent_id.as_deref(), Some("p"));
    refused(
        update_channel(&m, &mut rows, &limit("2"), "q", &moved_under(Some("p"))),
        400,
        "A category cannot be at the maximum depth (2)",
    );
    refused(
        update_channel(&m, &mut rows, &limit("2"), "x", &moved_under(Some("r"))),
        400,
        "Maximum channel depth (2) would be exceeded",
    );
    assert!(update_channel(&m, &mut rows, &limit("3"), "x", &moved_under(Some("r"))).is_ok());
}

#[test]
fn an_ancestor_is_found_however_far_up() {
    let m = holding(&["manage_channels"]);
    let mut rows = vec![channel("c0", None, true, 0)];
    for i in 1..120 {
        rows.push(channel(&format!("c{i}"), Some(&format!("c{}", i - 1)), true, i));
    }
    assert!(is_ancestor(&rows, "c0", "c119"));
    assert!(is_ancestor(&rows, "c60", "c119"));
    assert!(!is_ancestor(&rows, "c119", "c0"));
    assert!(!is_ancestor(&rows, "nowhere", "c119"));
    refused(
        update_channel(&m, &mut rows, &None, "c0", &moved_under(Some("c119"))),
        400,
        "Cannot move a channel into its own descendant",
    );
    let looped = vec![channel("a", Some("b"), true, 0), channel("b", Some("a"), true, 1)];
    assert!(is_ancestor(&looped, "a", "a"));
    assert!(!is_ancestor(&looped, "c", "a"));
}

#[test]
fn a_refused_name_leaves_the_rest_of_the_change() {
    let m = holding(&["manage_channels", "manage_channel_icons"]);
    let mut rows = tree();
    let req = UpdateChannelRequest {
        name: Some(text("  ")),
        description: Some(text("new")),
        icon: Some(Some(text("star"))),
        ..no_change()
    };
    refused(update_channel(&m, &mut rows, &None, "leaf", &req), 400, "Channel name cannot be empty");
    assert_eq!(rows[2].name, "name of leaf");
    assert_eq!(rows[2].description.as_deref(), Some("new"));
    assert_eq!(rows[2].icon.as_deref(), Some("star"));
    let req = UpdateChannelRequest { name: Some(text("name of top ")), ..no_change() };
    refused(
        update_channel(&m, &mut rows, &None, "leaf", &req),
        409,
        "A channel with that name already exists",
    );
    let req = UpdateChannelRequest { name: Some(text(" fresh ")), icon: Some(None), ..no_change() };
    assert_eq!(update_channel(&m, &mut rows, &None, "leaf", &req).ok(), Some(200));
    assert_eq!(rows[2].name, "fresh");
    assert!(rows[2].icon.is_none());
    let structure_only = holding(&["manage_channels"]);
    refused(
        update_channel(&structure_only, &mut rows, &None, "leaf", &req),
        403,
        "Missing permission: manage_channel_icons",
    );
    let icons_only = holding(&["manage_channel_icons"]);
    refused(
        update_channel(&icons_only, &mut rows, &None, "leaf", &req),
        403,
        "Missing permission: manage_channels",
    );
}

#[test]
fn no_channel_comes_to_lie_above_itself() {
    let m = holding(&["manage_channels"]);
    let mut rows = tree();
    let ids = |rows: &Vec<ChannelRow>| -> Vec<String> { rows.iter().map(|r| r.id.clone()).collect() };
    let sound = |rows: &Vec<ChannelRow>| ids(rows).iter().all(|i| !is_ancestor(rows, i, i));
    let made = create_channel("me", &m, &rows, &None, &new_channel("n", Some("mid"), true), "n", 1);
    assert!(made.is_ok());
    rows.push(channel("n", Some("mid"), true, 3));
    assert!(sound(&rows));
    assert!(update_channel(&m, &mut rows, &None, "leaf", &moved_under(Some("n"))).is_ok());
    assert!(sound(&rows));
    assert!(update_channel(&m, &mut rows, &None, "mid", &moved_under(Some("n"))).is_err());
    assert!(sound(&rows));
    assert!(update_channel(&m, &mut rows, &None, "mid", &moved_under(None)).is_ok());
    assert!(sound(&rows));
    assert!(!is_ancestor(&rows, "top", "leaf"));
}

#[test]
fn channels_are_ordered_as_named_and_deleted_when_empty() {
    let m = holding(&["manage_channels"]);
    let mut rows = tree();
    let req = ReorderRequest { channel_ids: vec![text("leaf"), text("ghost"), text("top")] };
    assert_eq!(reorder_channels(&m, &mut rows, &req).ok(), Some(200));
    let places: Vec<i64> = rows.iter().map(|r| r.display_order).collect();
    assert_eq!(places, vec![2, 1, 0]);
    refused(
        delete_channel("me", &m, &mut rows, "mid"),
        409,
        "Cannot delete: category still has channels",
    );
    refused(delete_channel("me", &m, &mut rows, "ghost"), 404, "Channel not found");
    assert_eq!(rows.len(), 3);
    let gone = delete_channel("me", &m, &mut rows, "leaf").ok().unwrap();
    assert_eq!(gone.event.event_type, "channel.deleted");
    assert_eq!(gone.data_of, "leaf");
    assert_eq!(rows.len(), 2);
    assert!(delete_channel("me", &m, &mut rows, "mid").is_ok());
    let shown = list_channels(tree());
    assert!(shown[0].is_category);
    assert!(!shown[2].is_category);
}

fn facts() -> SendFacts {
    SendFacts {
        perms: holding(&["send_messages"]),
        mutes: vec![],
        channel_bans: vec![],
        channel_exists: true,
        parent: None,
        sender_name: Some(text("Me")),
    }
}

fn saying(content: &str) -> SendMessageRequest {
    SendMessageRequest { content: text(content), attachments: vec![], reply_to: None }
}

fn parent_in(channel: &str) -> Option<ParentMessage> {
    Some(ParentMessage {
        channel_id: text(channel),
        sender: text("you"),
        sender_name: None,
        content: "\u{e9}".repeat(200),
        visible_to_pubkey: None,
    })
}

#[test]
fn a_message_is_sent_by_who_may() {
    let go = |f: &SendFacts, req: &SendMessageRequest| may_send(f, "me", "c", req, 100);
    assert!(go(&facts(), &saying("hi")).is_ok());
    let mut f = facts();
    f.perms = holding(&[]);
    refused(go(&f, &saying("hi")), 403, "Missing permission: send_messages");
    let mut f = facts();
    f.mutes = vec![MuteResponse {
        target_public_key: text("me"),
        muted_by: text("m"),
        reason: None,
        expires_at: Some(101),
        created_at: 0,
    }];
    refused(go(&f, &saying("hi")), 403, "You are muted");
    f.mutes[0].expires_at = Some(100);
    assert!(go(&f, &saying("hi")).is_ok());
    let mut f = facts();
    f.channel_bans = vec![ChannelBanResponse {
        channel_id: text("c"),
        target_public_key: text("me"),
        banned_by: text("m"),
        reason: None,
        created_at: 0,
    }];
    refused(go(&f, &saying("hi")), 403, "You are banned from this channel");
    let mut f = facts();
    f.channel_exists = false;
    refused(go(&f, &saying("hi")), 404, "Channel not found");
    let mut f = facts();
    let mut reply = saying("hi");
    reply.reply_to = Some(text("p"));
    refused(go(&f, &reply), 404, "Parent message not found");
    f.parent = parent_in("elsewhere");
    refused(go(&f, &reply), 400, "Parent message is in a different channel");
}

#[test]
fn attachments_have_a_cap() {
    let half = |n: usize| Attachment {
        name: text("a"),
        mime: text("b"),
        data_b64: "x".repeat(n),
    };
    let mut req = saying("");
    req.attachments = vec![half(MAX_ATTACHMENTS_BYTES / 2), half(MAX_ATTACHMENTS_BYTES / 2)];
    assert!(may_send(&facts(), "me", "c", &req, 1).is_ok());
    req.attachments.push(half(1));
    refused(may_send(&facts(), "me", "c", &req, 1), 413, "Attachments exceed 3MB cap");
}

#[test]
fn a_sent_message_is_stored_and_told() {
    let mut f = facts();
    f.parent = parent_in("c");
    let mut req = saying("hello");
    req.reply_to = Some(text("p"));
    match send_message(&f, "me", "c", req, "[]", None, "id", 9).ok().unwrap() {
        Sent::Stored { message, attachments, event } => {
            assert_eq!(message.sender_name.as_deref(), Some("Me"));
            let reply = message.reply_to.unwrap();
            assert_eq!(reply.content_preview.chars().count(), 140);
            assert!(attachments.is_none());
            assert_eq!(event.event_type, "message.created");
            match event.payload {
                Payload::Object(m) => {
                    let keys: Vec<&str> = m.iter().map(|x| x.key.as_str()).collect();
                    assert_eq!(
                        keys,
                        vec![
                            "message_id",
                            "content",
                            "sender",
                            "sender_name",
                            "created_at",
                            "attachments"
                        ]
                    );
                    assert!(matches!(&m[4].value, JsonValue::Raw(s) if s == "9"));
                }
                Payload::Other(_) => panic!("an object was expected"),
            }
        }
        Sent::Failed { .. } => panic!("the message was expected to be stored"),
    }
}

#[test]
fn a_failed_command_is_told_to_its_sender_alone() {
    assert!(calls_command("/roll 6"));
    assert!(!calls_command("roll"));
    let sent = send_message(&facts(), "me", "c", saying("/x"), "[]", Some(text("no")), "id", 9);
    match sent.ok().unwrap() {
        Sent::Failed { message } => {
            assert_eq!(message.content, "no");
            assert_eq!(message.visible_to_pubkey.as_deref(), Some("me"));
        }
        Sent::Stored { .. } => panic!("nothing was expected to be stored"),
    }
    let sent = send_message(&facts(), "me", "c", saying("x"), "[]", Some(text("no")), "id", 9);
    assert!(matches!(sent.ok().unwrap(), Sent::Stored { .. }));
}

fn row() -> MessageRow {
    MessageRow {
        id: text("m"),
        channel_id: text("c"),
        sender: text("me"),
        sender_name: None,
        content: text("old"),
        attachments: None,
        reply_to: Some(text("p")),
        created_at: 1,
        edited_at: None,
        visible_to_pubkey: None,
    }
}

#[test]
fn a_message_for_one_user_is_listed_to_no_one_else() {
    let to = |id: &str, who: Option<&str>| MessageRow {
        id: text(id),
        visible_to_pubkey: who.map(|w| w.to_string()),
        ..row()
    };
    let listed = |viewer: &str| -> Vec<String> {
        let rows = vec![to("1", None), to("2", Some("a")), to("3", Some("b")), to("4", None)];
        get_messages(rows, viewer).into_iter().map(|m| m.id).collect()
    };
    assert_eq!(listed("a"), vec!["1", "2", "4"]);
    assert_eq!(listed("b"), vec!["1", "3", "4"]);
    assert_eq!(listed("c"), vec!["1", "4"]);
    let shown = message_response(to("2", Some("a")), vec![], vec![], &None);
    assert_eq!(shown.visible_to_pubkey.as_deref(), Some("a"));
    let edited = edit_message(
        Some(to("2", Some("a"))),
        "me",
        "c",
        EditMessageRequest { content: text("new") },
        8,
    );
    assert_eq!(edited.ok().unwrap().visible_to_pubkey.as_deref(), Some("a"));
}

#[test]
fn a_reply_shows_what_it_answers_to_those_who_may_see_it() {
    let hidden =
        parent_in("c").map(|p| ParentMessage { visible_to_pubkey: Some(text("a")), ..p });
    let reply = || message_response(row(), vec![], vec![], &hidden);
    assert_eq!(reply().reply_to.unwrap().message_id, "p");
    assert!(may_see_answered(&reply(), "a"));
    assert!(!may_see_answered(&reply(), "b"));
    assert_eq!(message_for(reply(), "a").reply_to.unwrap().content_preview.chars().count(), 140);
    let shown = message_for(reply(), "b");
    assert!(shown.reply_to.is_none());
    assert_eq!((shown.id.as_str(), shown.content.as_str()), ("m", "old"));
    let open = message_response(row(), vec![], vec![], &parent_in("c"));
    assert!(message_for(open, "b").reply_to.is_some());
    let facts = SendFacts {
        parent: parent_in("c").map(|p| ParentMessage { visible_to_pubkey: Some(text("a")), ..p }),
        ..facts()
    };
    let req = SendMessageRequest { reply_to: Some(text("p")), ..saying("hi") };
    let sent = send_message(&facts, "a", "c", req, "[]", None, "id", 9);
    match sent.ok().unwrap() {
        Sent::Stored { message, .. } => {
            assert!(message_for(message.clone(), "a").reply_to.is_some());
            assert!(message_for(message, "c").reply_to.is_none());
        }
        Sent::Failed { .. } => panic!("the message was expected to be stored"),
    }
}

#[test]
fn a_message_is_changed_by_its_sender() {
    let edit = |r: Option<MessageRow>, who: &str, c: &str| {
        edit_message(r, who, c, EditMessageRequest { content: text("new") }, 8)
    };
    refused(edit(None, "me", "c"), 404, "Message not found");
    refused(edit(Some(row()), "me", "d"), 404, "Message not in this channel");
    refused(edit(Some(row()), "you", "c"), 403, "You can only edit your own messages");
    let m = edit(Some(row()), "me", "c").ok().unwrap();
    assert_eq!(m.content, "new");
    assert_eq!(m.edited_at, Some(8));
    assert_eq!(m.created_at, 1);

    let delete = |r: Option<MessageRow>, p: &[&str], who: &str, c: &str| {
        delete_message(&r, &holding(p), who, c, "m")
    };
    refused(delete(None, &[], "me", "c"), 404, "Message not found");
    refused(delete(Some(row()), &[], "me", "d"), 404, "Message not in this channel");
    refused(delete(Some(row()), &[], "you", "c"), 403, "Missing permission: manage_messages");
    assert!(delete(Some(row()), &["manage_messages"], "you", "c").is_ok());
    assert!(matches!(
        delete(Some(row()), &[], "me", "c").ok().unwrap(),
        ChatEvent::Deleted { message_id, .. } if message_id == "m"
    ));
    let shown = message_response(m, vec![], vec![], &parent_in("c"));
    assert_eq!(shown.reply_to.unwrap().message_id, "p");
    let orphan = message_response(row(), vec![], vec![], &None);
    assert!(orphan.reply_to.is_none());
}

#[test]
fn messages_are_asked_for_in_one_of_three_ways() {
    let ask = |q: Option<&str>, before: Option<&str>, limit: Option<i64>| {
        let params = PaginationParams {
            before: before.map(|b| b.to_string()),
            limit,
            q: q.map(|b| b.to_string()),
        };
        let query = message_query(&params, "me");
        assert_eq!(query.viewer, "me");
        query.selection
    };
    assert!(matches!(ask(None, None, None), Selection::Latest { limit: 50 }));
    assert!(matches!(ask(Some("  "), None, Some(500)), Selection::Latest { limit: 100 }));
    assert!(matches!(
        ask(None, Some("m"), Some(7)),
        Selection::Before { id, limit: 7 } if id == "m"
    ));
    assert!(matches!(
        ask(Some(" cat "), Some("m"), None),
        Selection::Search { pattern, before: Some(b), limit: 50 } if pattern == "%cat%" && b == "m"
    ));
    assert!(matches!(
        ask(Some("cat"), None, Some(-1)),
        Selection::Search { before: None, limit: -1, .. }
    ));
}

fn reaction(emoji: &str, user: &str, at: i64) -> ReactionRow {
    ReactionRow { message_id: text("m"), emoji: text(emoji), user_key: text(user), created_at: at }
}

#[test]
fn reactions_are_counted_per_emoji() {
    let rows = vec![reaction("+", "a", 1), reaction("-", "a", 2), reaction("+", "b", 3)];
    let s = load_reactions(&rows, "m", "b");
    assert_eq!(s.len(), 2);
    let plus = s.iter().find(|r| r.emoji == "+").unwrap();
    assert_eq!(plus.count, 2);
    assert!(plus.me);
    assert!(!s.iter().find(|r| r.emoji == "-").unwrap().me);
    assert!(load_reactions_anon(&rows, "m").iter().all(|r| !r.me));
    assert_eq!(load_reactions(&rows, "other", "b").len(), 0);
}

#[test]
fn a_reaction_stands_once_and_is_taken_back() {
    let p = holding(&["send_messages"]);
    let mut rows = vec![reaction("+", "a", 1)];
    let mut go = |emoji: &str, found: Option<&str>| {
        let found = found.map(|f| f.to_string());
        add_reaction(&p, &mut rows, &ReactionRequest { emoji: text(emoji) }, &found, "b", "c", "m", 5)
    };
    refused(go(" ", Some("c")), 400, "emoji must be 1..16 chars");
    refused(go(&"x".repeat(17), Some("c")), 400, "emoji must be 1..16 chars");
    refused(go("+", None), 404, "message not found");
    refused(go("+", Some("d")), 404, "message not in channel");
    assert!(go(" + ", Some("c")).is_ok());
    assert!(go("+", Some("c")).is_ok());
    assert_eq!(rows.len(), 2);
    match remove_reaction(&mut rows, "b", "c", "m", "+") {
        ChatEvent::ReactionsUpdated { reactions, .. } => assert_eq!(reactions[0].count, 1),
        _ => panic!("the reactions were expected"),
    }
    assert_eq!(rows.len(), 1);
    assert_eq!(rows[0].user_key, "a");
    let none = holding(&[]);
    let req = ReactionRequest { emoji: text("+") };
    refused(
        add_reaction(&none, &mut rows, &req, &Some(text("c")), "b", "c", "m", 5),
        403,
        "Missing permission: send_messages",
    );
}

#[test]
fn tags_are_normalised_and_kept_once() {
    let admin = holding(&["admin"]);
    let ask = |t: &[&str]| {
        patch_tags(&admin, &PatchTagsRequest { tags: t.iter().map(|x| text(x)).collect() })
    };
    let (stored, answer) = ask(&[" Rust ", "rust", "Open-Source", "2024"]).ok().unwrap();
    assert_eq!(answer.tags, vec![text("rust"), text("open-source"), text("2024")]);
    assert_eq!(stored, "[\"rust\",\"open-source\",\"2024\"]");
    assert_eq!(load_tags(&Some(stored)), answer.tags);
    assert_eq!(normalise_tag("RUST").ok(), Some(text("rust")));
    let once = normalise_tag(" Open-Source ").ok().unwrap();
    assert_eq!(normalise_tag(&once).ok(), Some(once));
    assert!(normalise_tag("stra\u{df}e").is_err());
    refused(ask(&[""]), 400, "Tag '' must be 1\u{2013}32 characters");
    refused(
        ask(&["x y"]),
        400,
        "Tag 'x y' may only contain a\u{2013}z, 0\u{2013}9, and hyphens",
    );
    refused(ask(&["Official"]), 400, "Tag 'official' is reserved and cannot be used as a self-tag");
    refused(ask(&["a"; 13]), 400, "A hub may have at most 12 self-tags");
    assert!(ask(&[&"a".repeat(32)]).is_ok());
    assert!(ask(&[&"a".repeat(33)]).is_err());
    let none = holding(&[]);
    refused(patch_tags(&none, &PatchTagsRequest { tags: vec![] }), 403, "Missing permission: admin");
    refused(get_tags(&none, &None), 403, "Missing permission: admin");
    assert_eq!(get_tags(&admin, &Some(text("[\"a\"]"))).ok().unwrap().tags, vec![text("a")]);
    assert!(load_tags(&Some(text("not json"))).is_empty());
    assert!(load_tags(&None).is_empty());
    assert!(load_nsfw(&Some(text("true"))));
    assert!(!load_nsfw(&Some(text("1"))));
    assert!(!load_nsfw(&None));
}

#[test]
fn a_webhook_opens_with_its_secret() {
    let admin = holding(&["admin"]);
    let req = |limit: Option<i64>| CreateWebhookRequest {
        channel_id: text("c"),
        display_name: text("CI"),
        avatar_url: None,
        rate_limit: limit,
    };
    let c = create_webhook("me", &admin, true, &req(None), "w1", "s3cret", &None, 3).ok().unwrap();
    assert_eq!(c.account.public_key, "w1");
    assert_eq!((c.account.is_bot, c.account.is_webhook), (1, 1));
    let (mut w, answer) = (c.webhook, c.response);
    assert_eq!(w.rate_limit, 5);
    assert_eq!(w.secret_token_hash, sha256_hex(b"s3cret"));
    assert_eq!(answer.webhook_url, "https://unknown-hub/webhooks/w1/s3cret");
    let c = create_webhook("me", &admin, true, &req(Some(9)), "w2", "t", &Some(text("https://h")), 3)
        .ok()
        .unwrap();
    let (v, answer) = (c.webhook, c.response);
    assert_eq!(v.rate_limit, 9);
    assert_eq!(answer.webhook_url, "https://h/webhooks/w2/t");
    refused(
        create_webhook("me", &admin, false, &req(None), "w", "s", &None, 3),
        404,
        "Channel not found",
    );
    refused(
        create_webhook("me", &holding(&[]), true, &req(None), "w", "s", &None, 3),
        403,
        "Missing permission: admin",
    );

    let post = |content: &str, name: Option<&str>| WebhookPostRequest {
        content: text(content),
        username: name.map(|n| n.to_string()),
        avatar_url: None,
        embeds: None,
    };
    let m = post_webhook_message(&Some(v), "w2", "t", &post(" built ", None), "m", 4).ok().unwrap();
    assert_eq!(m.content, "built");
    assert_eq!(m.sender, "w2");
    assert_eq!(m.sender_name.as_deref(), Some("CI"));
    let go = |w: Option<voxply::hub::webhooks::WebhookRow>, t: &str, content: &str| {
        post_webhook_message(&w, "w1", t, &post(content, Some("Other")), "m", 4)
    };
    refused(go(None, "s3cret", "x"), 404, "Webhook not found or inactive");
    w.active = false;
    refused(go(Some(w), "s3cret", "x"), 404, "Webhook not found or inactive");
    let fresh = || {
        let r = create_webhook("me", &holding(&["admin"]), true, &req(None), "w1", "s3cret", &None, 3);
        Some(r.ok().unwrap().webhook)
    };
    refused(go(fresh(), "guess", "x"), 401, "Invalid webhook token");
    refused(go(fresh(), "s3cret", " "), 400, "content is required");
    let m = go(fresh(), "s3cret", "x").ok().unwrap();
    assert_eq!(m.sender_name.as_deref(), Some("Other"));

    let mut rows = vec![fresh().unwrap()];
    refused(delete_webhook(&holding(&[]), &mut rows, "w1"), 403, "Missing permission: admin");
    refused(delete_webhook(&admin, &mut rows, "w9"), 404, "Webhook not found");
    assert!(rows[0].active);
    assert_eq!(delete_webhook(&admin, &mut rows, "w1").ok(), Some(204));
    refused(go(rows.pop(), "s3cret", "x"), 404, "Webhook not found or inactive");
}
