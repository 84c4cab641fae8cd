//! Webhooks: addresses under which other services post into a channel.
use vstd::prelude::*;
use crate::codec::{hex_encode, hex_text, sha256, sha256_digest};
use crate::hub::chat_models::MessageResponse;
use crate::hub::permissions::{allows, lemma_may_is_allowed, UserPermissions, ADMIN};
use crate::hub::{hub_refusal, refuse, refused, HubError, HubRefusal};
use crate::text::{concat3, opt_text, same, trim, trimmed};
use vstd::utf8::{encode_utf8, encode_utf8_decode_utf8};

verus! {

pub struct CreateWebhookRequest {
    pub channel_id: String,
    pub display_name: String,
    pub avatar_url: Option<String>,
    pub rate_limit: Option<i64>,
}

pub struct CreateWebhookResponse {
    pub id: String,
    pub webhook_url: String,
    pub display_name: String,
}

/// What a service posts. Embeds are JSON text.
pub struct WebhookPostRequest {
    pub content: String,
    pub username: Option<String>,
    pub avatar_url: Option<String>,
    pub embeds: Option<String>,
}

pub struct WebhookPostResponse {
    pub id: String,
}

/// A webhook as it is stored. Its secret is kept as a hash only.
pub struct WebhookRow {
    pub id: String,
    pub channel_id: String,
    pub secret_token_hash: String,
    pub display_name: String,
    pub avatar_url: Option<String>,
    pub created_by_pubkey: String,
    pub rate_limit: i64,
    pub active: bool,
    pub created_at: i64,
}

/// The account under which the messages of a webhook stand.
pub struct WebhookAccount {
    pub public_key: String,
    pub display_name: String,
    pub first_seen_at: i64,
    pub last_seen_at: i64,
    pub approval_status: String,
    pub is_bot: i64,
    pub is_webhook: i64,
}

/// A webhook that was created: what is stored of it, and the answer.
pub struct CreatedWebhook {
    pub webhook: WebhookRow,
    pub account: WebhookAccount,
    pub response: CreateWebhookResponse,
}

/// The SHA-256 of the bytes, in hexadecimal.
pub fn sha256_hex(data: &[u8]) -> (r: String)
    ensures
        r@ == hex_text(sha256_digest(data@)),
{
    let h = sha256(data);
    hex_encode(&h)
}

/// Whether the bytes are the same. Every byte is looked at, whatever the ones before it.
pub fn constant_time_eq(a: &[u8], b: &[u8]) -> (r: bool)
    ensures
        r == (a@ == b@),
{
    if a.len() != b.len() {
        return false;
    }
    let mut acc: u8 = 0;
    let mut i: usize = 0;
    while i < a.len()
        invariant
            a@.len() == b@.len(),
            i <= a@.len(),
            acc == 0 <==> forall|k: int| 0 <= k < i ==> a@[k] == b@[k],
        decreases a@.len() - i,
    {
        let x: u8 = a[i];
        let y: u8 = b[i];
        assert((acc | (x ^ y)) == 0 <==> (acc == 0 && x == y)) by (bit_vector);
        acc = acc | (x ^ y);
        i = i + 1;
    }
    if acc == 0 {
        assert(a@ =~= b@);
    }
    acc == 0
}

/// The hash under which the secret of a webhook is stored.
pub open spec fn token_hash(token: Seq<char>) -> Seq<char> {
    hex_text(sha256_digest(encode_utf8(token)))
}

/// Why a webhook may not be created, where it may not.
pub open spec fn webhook_refusal(perms: UserPermissions, channel_exists: bool) -> Option<
    HubRefusal,
> {
    if perms.refusal(ADMIN@) is Some {
        perms.refusal(ADMIN@)
    } else if !channel_exists {
        Some(hub_refusal(404, "Channel not found"@))
    } else {
        None
    }
}

/// Creates a webhook with the given identifier and secret: the row to store, which has the
/// hash of the secret, an account under the identifier, and the answer, which alone has the
/// secret.
pub fn create_webhook(
    user_key: &str,
    perms: &UserPermissions,
    channel_exists: bool,
    req: &CreateWebhookRequest,
    id: &str,
    secret_token: &str,
    hub_url: &Option<String>,
    now: i64,
) -> (r: Result<CreatedWebhook, HubError>)
    ensures
        match webhook_refusal(*perms, channel_exists) {
            Some(d) => refused(r, d),
            None => r matches Ok(x) && {
                &&& x.webhook.id@ == id@
                &&& x.webhook.channel_id@ == req.channel_id@
                &&& x.webhook.secret_token_hash@ == token_hash(secret_token@)
                &&& x.webhook.display_name@ == req.display_name@
                &&& opt_text(x.webhook.avatar_url) == opt_text(req.avatar_url)
                &&& x.webhook.created_by_pubkey@ == user_key@
                &&& x.webhook.rate_limit == match req.rate_limit {
                    Some(n) => n,
                    None => 5,
                }
                &&& x.webhook.active
                &&& x.webhook.created_at == now
                &&& x.account.public_key@ == id@
                &&& x.account.display_name@ == req.display_name@
                &&& x.account.first_seen_at == now
                &&& x.account.last_seen_at == now
                &&& x.account.approval_status@ == "approved"@
                &&& x.account.is_bot == 1
                &&& x.account.is_webhook == 1
                &&& x.response.id@ == id@
                &&& x.response.display_name@ == req.display_name@
                &&& x.response.webhook_url@ == (match hub_url {
                    Some(u) => u@,
                    None => "https://unknown-hub"@,
                }) + "/webhooks/"@ + id@ + "/"@ + secret_token@
            },
        },
{
    match perms.require(ADMIN) {
        Ok(_) => {},
        Err(e) => return Err(e),
    }
    if !channel_exists {
        return Err(refuse(404, "Channel not found"));
    }
    let base: String = match hub_url {
        Some(u) => u.clone(),
        None => "https://unknown-hub".to_owned(),
    };
    let mut webhook_url = concat3(base.as_str(), "/webhooks/", id);
    webhook_url.append("/");
    webhook_url.append(secret_token);
    let webhook = WebhookRow {
        id: id.to_owned(),
        channel_id: req.channel_id.clone(),
        secret_token_hash: sha256_hex(secret_token.as_bytes()),
        display_name: req.display_name.clone(),
        avatar_url: req.avatar_url.clone(),
        created_by_pubkey: user_key.to_owned(),
        rate_limit: match req.rate_limit {
            Some(n) => n,
            None => 5,
        },
        active: true,
        created_at: now,
    };
    let account = WebhookAccount {
        public_key: id.to_owned(),
        display_name: req.display_name.clone(),
        first_seen_at: now,
        last_seen_at: now,
        approval_status: "approved".to_owned(),
        is_bot: 1,
        is_webhook: 1,
    };
    let response = CreateWebhookResponse {
        id: id.to_owned(),
        webhook_url,
        display_name: req.display_name.clone(),
    };
    Ok(CreatedWebhook { webhook, account, response })
}

/// Whether the webhook is the one of before, taken down where it has the identifier.
pub open spec fn taken_down(new: WebhookRow, before: WebhookRow, id: Seq<char>) -> bool {
    if before.id@ == id {
        new == (WebhookRow { active: false, ..before })
    } else {
        new == before
    }
}

/// Whether there is such a webhook, active or not.
pub open spec fn is_known(rows: Seq<WebhookRow>, id: Seq<char>) -> bool {
    exists|i: int| 0 <= i < rows.len() && (#[trigger] rows[i]).id@ == id
}

/// Takes a webhook down. The answer has no content.
pub fn delete_webhook(perms: &UserPermissions, rows: &mut Vec<WebhookRow>, webhook_id: &str) -> (r:
    Result<u16, HubError>)
    ensures
        match perms.refusal(ADMIN@) {
            Some(d) => refused(r, d) && final(rows)@ == old(rows)@,
            None => {
                &&& if is_known(old(rows)@, webhook_id@) {
                    r == Ok::<u16, HubError>(204)
                } else {
                    refused(r, hub_refusal(404, "Webhook not found"@))
                }
                &&& final(rows)@.len() == old(rows)@.len()
                &&& forall|i: int|
                    0 <= i < old(rows)@.len() ==> taken_down(
                        #[trigger] final(rows)@[i],
                        old(rows)@[i],
                        webhook_id@,
                    )
            },
        },
{
    match perms.require(ADMIN) {
        Ok(_) => {},
        Err(e) => return Err(e),
    }
    let ghost before = rows@;
    let mut found = false;
    let mut i: usize = 0;
    while i < rows.len()
        invariant
            i <= rows@.len(),
            rows@.len() == before.len(),
            forall|k: int| i <= k < before.len() ==> rows@[k] == before[k],
            forall|k: int| 0 <= k < i ==> taken_down(#[trigger] rows@[k], before[k], webhook_id@),
            found <==> exists|k: int| 0 <= k < i && (#[trigger] before[k]).id@ == webhook_id@,
        decreases rows@.len() - i,
    {
        if same(rows[i].id.as_str(), webhook_id) {
            assert(before[i as int].id@ == webhook_id@);
            rows[i].active = false;
            found = true;
        }
        i = i + 1;
    }
    if found {
        Ok(204)
    } else {
        Err(refuse(404, "Webhook not found"))
    }
}

/// Why the post is refused, where it is: the webhook, then the secret, then the content.
pub open spec fn post_refusal(
    webhook: Option<WebhookRow>,
    token: Seq<char>,
    req: WebhookPostRequest,
) -> Option<HubRefusal> {
    match webhook {
        Some(w) => if !w.active {
            Some(hub_refusal(404, "Webhook not found or inactive"@))
        } else if token_hash(token) != w.secret_token_hash@ {
            Some(hub_refusal(401, "Invalid webhook token"@))
        } else if trimmed(req.content@).len() == 0 {
            Some(hub_refusal(400, "content is required"@))
        } else {
            None
        },
        None => Some(hub_refusal(404, "Webhook not found or inactive"@)),
    }
}

/// Whether the message is the one that the post makes: sent by the webhook, under the name
/// that the post gives or else its own.
pub open spec fn posted(
    m: MessageResponse,
    w: WebhookRow,
    webhook_id: Seq<char>,
    req: WebhookPostRequest,
    msg_id: Seq<char>,
    now: i64,
) -> bool {
    &&& m.id@ == msg_id
    &&& m.channel_id@ == w.channel_id@
    &&& m.sender@ == webhook_id
    &&& opt_text(m.sender_name) == Some(
        match req.username {
            Some(u) => u@,
            None => w.display_name@,
        },
    )
    &&& m.content@ == trimmed(req.content@)
    &&& m.created_at == now
    &&& m.edited_at is None
    &&& m.attachments@.len() == 0
    &&& m.reactions@.len() == 0
    &&& m.reply_to is None
    &&& m.visible_to_pubkey is None
}

/// Posts into the channel of the webhook under the given identifier: the message to store
/// and to spread.
pub fn post_webhook_message(
    webhook: &Option<WebhookRow>,
    webhook_id: &str,
    token: &str,
    req: &WebhookPostRequest,
    msg_id: &str,
    now: i64,
) -> (r: Result<MessageResponse, HubError>)
    ensures
        match post_refusal(*webhook, token@, *req) {
            Some(d) => refused(r, d),
            None => r matches Ok(m) && posted(m, webhook->0, webhook_id@, *req, msg_id@, now),
        },
{
    match webhook {
        Some(w) => {
            if !w.active {
                return Err(refuse(404, "Webhook not found or inactive"));
            }
            let presented = sha256_hex(token.as_bytes());
            proof {
                encode_utf8_decode_utf8(presented@);
                encode_utf8_decode_utf8(w.secret_token_hash@);
            }
            if !constant_time_eq(
                presented.as_str().as_bytes(),
                w.secret_token_hash.as_str().as_bytes(),
            ) {
                return Err(refuse(401, "Invalid webhook token"));
            }
            let content = trim(req.content.as_str());
            if content.as_str().is_empty() {
                return Err(refuse(400, "content is required"));
            }
            let name: String = match &req.username {
                Some(u) => u.clone(),
                None => w.display_name.clone(),
            };
            Ok(
                MessageResponse {
                    id: msg_id.to_owned(),
                    channel_id: w.channel_id.clone(),
                    sender: webhook_id.to_owned(),
                    sender_name: Some(name),
                    content,
                    created_at: now,
                    edited_at: None,
                    attachments: Vec::new(),
                    reactions: Vec::new(),
                    reply_to: None,
                    visible_to_pubkey: None,
                },
            )
        },
        None => Err(refuse(404, "Webhook not found or inactive")),
    }
}

/// The secret that was handed out opens the webhook that was stored, as long as it is
/// active and the post has content.
pub proof fn created_secret_opens(
    w: WebhookRow,
    token: Seq<char>,
    req: WebhookPostRequest,
)
    requires
        w.active,
        w.secret_token_hash@ == token_hash(token),
        trimmed(req.content@).len() > 0,
    ensures
        post_refusal(Some(w), token, req) is None,
{
}

/// A webhook that was taken down takes no post, whatever the secret.
pub proof fn taken_down_takes_no_post(
    w: WebhookRow,
    before: WebhookRow,
    token: Seq<char>,
    req: WebhookPostRequest,
)
    requires
        taken_down(w, before, before.id@),
    ensures
        post_refusal(Some(w), token, req) == Some(
            hub_refusal(404, "Webhook not found or inactive"@),
        ),
{
}

/// A webhook that an admin creates in a channel that is there posts into that channel, under the
/// name that it was given: the secret in the address that was handed out opens it, and what is
/// posted is told as it was written. What is stored holds the secret's hash only.
pub proof fn the_address_handed_out_posts_into_the_channel(
    user: &str,
    perms: &UserPermissions,
    channel_exists: bool,
    req: &CreateWebhookRequest,
    id: &str,
    secret: &str,
    hub_url: &Option<String>,
    now: i64,
    r: Result<CreatedWebhook, HubError>,
    stored: &Option<WebhookRow>,
    post: &WebhookPostRequest,
    msg_id: &str,
    at: i64,
    p: Result<MessageResponse, HubError>,
)
    requires
        call_ensures(
            create_webhook,
            (user, perms, channel_exists, req, id, secret, hub_url, now),
            r,
        ),
        r is Ok ==> *stored == Some(r->Ok_0.webhook),
        call_ensures(post_webhook_message, (stored, id, secret, post, msg_id, at), p),
    ensures
        r is Ok <==> allows(*perms, "admin"@) && channel_exists,
        r matches Err(e) ==> e.status == if allows(*perms, "admin"@) {
            404int
        } else {
            403
        },
        r matches Ok(x) ==> x.webhook.id@ == id@ && x.webhook.channel_id@ == req.channel_id@
            && x.webhook.display_name@ == req.display_name@ && x.webhook.created_by_pubkey@ == user@
            && x.webhook.active && x.webhook.created_at == now && opt_text(x.webhook.avatar_url)
            == opt_text(req.avatar_url),
        r matches Ok(x) ==> (req.rate_limit matches Some(n) ==> x.webhook.rate_limit == n) && (
        req.rate_limit is None ==> x.webhook.rate_limit == 5),
        r matches Ok(x) ==> x.account.public_key@ == id@ && x.account.display_name@
            == req.display_name@ && x.account.is_bot == 1 && x.account.is_webhook == 1
            && x.account.approval_status@ == "approved"@ && x.account.first_seen_at == now
            && x.account.last_seen_at == now,
        r matches Ok(x) ==> x.response.id@ == id@ && x.response.display_name@ == req.display_name@
            && (hub_url matches Some(u) ==> x.response.webhook_url@ == u@ + "/webhooks/"@ + id@
            + "/"@ + secret@),
        r is Ok ==> (p is Ok <==> trimmed(post.content@).len() > 0),
        r is Ok && p is Ok ==> ({
            let m = p->Ok_0;
            &&& m.channel_id@ == req.channel_id@
            &&& m.sender@ == id@
            &&& m.content@ == trimmed(post.content@)
            &&& m.id@ == msg_id@
            &&& m.created_at == at
            &&& m.visible_to_pubkey is None
            &&& m.edited_at is None && m.reply_to is None
            &&& m.attachments@.len() == 0 && m.reactions@.len() == 0
            &&& post.username is None ==> opt_text(m.sender_name) == Some(req.display_name@)
            &&& post.username matches Some(u) ==> opt_text(m.sender_name) == Some(u@)
        }),
        r is Ok && p is Err ==> p->Err_0.status == 400,
{
    lemma_may_is_allowed(*perms, ADMIN@);
}

/// A webhook takes a post only with the secret whose hash it has, only while it is active, and
/// only with something in it.
pub proof fn a_post_needs_the_secret(
    webhook: &Option<WebhookRow>,
    id: &str,
    token: &str,
    post: &WebhookPostRequest,
    msg_id: &str,
    now: i64,
    p: Result<MessageResponse, HubError>,
    digest: String,
    bytes: &[u8],
)
    requires
        call_ensures(post_webhook_message, (webhook, id, token, post, msg_id, now), p),
        bytes@ == encode_utf8(token@),
        call_ensures(sha256_hex, (bytes,), digest),
    ensures
        p is Ok <==> webhook is Some && webhook->0.active && webhook->0.secret_token_hash@
            == digest@ && trimmed(post.content@).len() > 0,
        webhook is None ==> p->Err_0.status == 404,
        webhook is Some && !webhook->0.active ==> p->Err_0.status == 404,
        webhook is Some && webhook->0.active && webhook->0.secret_token_hash@ != digest@
            ==> p->Err_0.status == 401,
{
}

/// A webhook is taken down by admins only: it is then inactive, and no other is touched.
pub proof fn an_admin_takes_one_webhook_down(
    perms: &UserPermissions,
    rows: &mut Vec<WebhookRow>,
    id: &str,
    r: Result<u16, HubError>,
    i: int,
)
    requires
        call_ensures(delete_webhook, (perms, rows, id), r),
        0 <= i < old(rows)@.len(),
    ensures
        !allows(*perms, "admin"@) ==> r is Err && r->Err_0.status == 403 && final(rows)@ == old(rows)@,
        allows(*perms, "admin"@) && old(rows)@[i].id@ == id@ ==> r is Ok && r->Ok_0 == 204
            && !final(rows)@[i].active,
        allows(*perms, "admin"@) && (forall|k: int|
            0 <= k < old(rows)@.len() ==> (#[trigger] old(rows)@[k]).id@ != id@) ==> r is Err
            && r->Err_0.status == 404,
        final(rows)@.len() == old(rows)@.len(),
        old(rows)@[i].id@ != id@ ==> final(rows)@[i] == old(rows)@[i],
        final(rows)@[i] == (WebhookRow { active: final(rows)@[i].active, ..old(rows)@[i] }),
{
    lemma_may_is_allowed(*perms, ADMIN@);
}

/// Two byte strings are the same exactly where they are of one length and every byte is.
pub proof fn equal_bytes_are_equal(a: &[u8], b: &[u8], r: bool)
    requires
        call_ensures(constant_time_eq, (a, b), r),
    ensures
        r <==> a@.len() == b@.len() && forall|i: int| 0 <= i < a@.len() ==> #[trigger] a@[i] == b@[i],
{
    if a@.len() == b@.len() && (forall|i: int| 0 <= i < a@.len() ==> #[trigger] a@[i] == b@[i]) {
        assert(a@ =~= b@);
    }
}

} // verus!
