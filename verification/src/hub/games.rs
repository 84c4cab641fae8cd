//! Games: those that are installed, and the sessions in which they are played.
use vstd::prelude::*;
use vstd::utf8::encode_utf8;
use crate::codec::{hex_encode, hex_text, is_json, json_or, json_valid, sha256, sha256_digest};
use crate::hub::payload::{
    copy_payload, copy_value, holds_key, lemma_value_push, members, same_payload, value_of,
    JsonField, Payload,
};
use crate::hub::permissions::{
    allows, lemma_may_is_allowed, UserPermissions, ADMIN, MANAGE_GAMES, START_GAME,
};
use crate::hub::{hub_refusal, refuse, refused, HubError, HubRefusal};
use crate::table::{pair, Pair, Table};
use crate::text::{concat2, contains_text, copy_texts, opt_text, same, texts};

verus! {

pub struct InstallGameRequest {
    pub name: String,
    pub entry_url: String,
    pub id: Option<String>,
    pub description: Option<String>,
    pub version: Option<String>,
    pub thumbnail_url: Option<String>,
    pub author: Option<String>,
    pub min_players: Option<i64>,
    pub max_players: Option<i64>,
}

pub struct InstalledGameResponse {
    pub id: String,
    pub name: String,
    pub entry_url: String,
    pub version: String,
    pub description: Option<String>,
    pub thumbnail_url: Option<String>,
    pub author: Option<String>,
    pub min_players: i64,
    pub max_players: i64,
}

/// An installed game as it is stored.
pub struct GameRow {
    pub id: String,
    pub name: String,
    pub description: Option<String>,
    pub version: String,
    pub entry_url: String,
    pub thumbnail_url: Option<String>,
    pub author: Option<String>,
    pub min_players: i64,
    pub max_players: i64,
    pub installed_by: String,
    pub installed_at: i64,
    pub manifest_url: String,
}

pub struct CreateSessionRequest {
    pub game_id: String,
    pub channel_id: String,
}

/// A session as it is shown. The state is JSON text.
pub struct SessionResponse {
    pub id: String,
    pub channel_id: String,
    pub game_id: String,
    pub host_pubkey: String,
    pub players: Vec<String>,
    pub state_json: String,
    pub created_at: String,
    pub ended_at: Option<String>,
}

/// A change to the state of a session.
pub struct PatchStateRequest {
    pub patch: Payload,
}

pub struct SetKvRequest {
    pub value: String,
}

pub struct KvResponse {
    pub session_id: String,
    pub key: String,
    pub value: String,
    pub updated_at: String,
}

/// A value that the players of a session share.
pub struct KvEntry {
    pub value: String,
    pub updated_at: String,
}

/// A session as it is stored. The state is JSON text.
pub struct GameSessionRow {
    pub id: String,
    pub channel_id: String,
    pub game_id: String,
    pub host_pubkey: String,
    pub state_json: String,
    pub created_at: String,
    pub ended_at: Option<String>,
}

/// A session as it is kept in memory while it is played. No player stands twice.
pub struct GameSessionState {
    pub id: String,
    pub channel_id: String,
    pub game_id: String,
    pub host_pubkey: String,
    pub players: Vec<String>,
    pub in_memory_state: Payload,
}

/// What is told of a session in its channel.
pub enum GameMessage {
    SessionCreated { session_id: String, channel_id: String, game_id: String, host_pubkey: String },
    SessionJoined { session_id: String, player_pubkey: String },
    StateUpdated { session_id: String, patch: Payload },
    SessionEnded { session_id: String },
}

/// Something that is told in a channel.
pub struct GameEvent {
    pub channel_id: String,
    pub message: GameMessage,
}

/// The identifier of a game: the one that is given, or one made of the hash of its address,
/// which is the same whenever it is installed.
pub open spec fn game_id_of(req: InstallGameRequest) -> Seq<char> {
    match req.id {
        Some(id) => id@,
        None => "game-"@ + hex_text(sha256_digest(encode_utf8(req.entry_url@)).take(8)),
    }
}

/// The identifier of a game, under which it is stored.
pub fn game_id(req: &InstallGameRequest) -> (r: String)
    ensures
        r@ == game_id_of(*req),
{
    match &req.id {
        Some(id) => id.clone(),
        None => {
            let hash = sha256(req.entry_url.as_str().as_bytes());
            let mut head: Vec<u8> = Vec::new();
            let mut i: usize = 0;
            while i < 8
                invariant
                    i <= 8,
                    hash@.len() == 32,
                    head@ == hash@.take(i as int),
                decreases 8 - i,
            {
                assert(hash@.take(i as int).push(hash@[i as int]) =~= hash@.take(i as int + 1));
                head.push(hash[i]);
                i = i + 1;
            }
            concat2("game-", hex_encode(&head).as_str())
        },
    }
}

/// Whether the row is the game as it was asked for, with its defaults. One that was installed
/// before keeps who installed it and when.
pub open spec fn installed(
    g: GameRow,
    req: InstallGameRequest,
    known: Option<GameRow>,
    user: Seq<char>,
    now: i64,
) -> bool {
    &&& g.id@ == game_id_of(req)
    &&& g.name@ == req.name@
    &&& opt_text(g.description) == opt_text(req.description)
    &&& g.version@ == match req.version {
        Some(v) => v@,
        None => "1.0.0"@,
    }
    &&& g.entry_url@ == req.entry_url@
    &&& opt_text(g.thumbnail_url) == opt_text(req.thumbnail_url)
    &&& opt_text(g.author) == opt_text(req.author)
    &&& g.min_players == match req.min_players {
        Some(n) => n,
        None => 1i64,
    }
    &&& g.max_players == match req.max_players {
        Some(n) => n,
        None => 1i64,
    }
    &&& match known {
        Some(k) => g.installed_by@ == k.installed_by@ && g.installed_at == k.installed_at
            && g.manifest_url@ == k.manifest_url@,
        None => g.installed_by@ == user && g.installed_at == now && g.manifest_url@.len() == 0,
    }
}

/// Whether the answer shows the game.
pub open spec fn game_shown(s: InstalledGameResponse, g: GameRow) -> bool {
    &&& s.id@ == g.id@
    &&& s.name@ == g.name@
    &&& s.entry_url@ == g.entry_url@
    &&& s.version@ == g.version@
    &&& opt_text(s.description) == opt_text(g.description)
    &&& opt_text(s.thumbnail_url) == opt_text(g.thumbnail_url)
    &&& opt_text(s.author) == opt_text(g.author)
    &&& s.min_players == g.min_players
    &&& s.max_players == g.max_players
}

/// Installs a game, or installs it again: the row afterwards, given the one that is stored
/// under its identifier, and the answer.
pub fn install_game(
    perms: &UserPermissions,
    req: &InstallGameRequest,
    known: &Option<GameRow>,
    user_key: &str,
    now: i64,
) -> (r: Result<(GameRow, InstalledGameResponse), HubError>)
    ensures
        match perms.refusal(MANAGE_GAMES@) {
            Some(d) => refused(r, d),
            None => r matches Ok(x) && installed(x.0, *req, *known, user_key@, now) && game_shown(
                x.1,
                x.0,
            ),
        },
{
    match perms.require(MANAGE_GAMES) {
        Ok(_) => {},
        Err(e) => return Err(e),
    }
    let id = game_id(req);
    let version: String = match &req.version {
        Some(v) => v.clone(),
        None => "1.0.0".to_owned(),
    };
    let min_players: i64 = match req.min_players {
        Some(n) => n,
        None => 1,
    };
    let max_players: i64 = match req.max_players {
        Some(n) => n,
        None => 1,
    };
    let installed_by: String = match known {
        Some(k) => k.installed_by.clone(),
        None => user_key.to_owned(),
    };
    let installed_at: i64 = match known {
        Some(k) => k.installed_at,
        None => now,
    };
    let manifest_url: String = match known {
        Some(k) => k.manifest_url.clone(),
        None => String::new(),
    };
    let row = GameRow {
        id: id.clone(),
        name: req.name.clone(),
        description: req.description.clone(),
        version: version.clone(),
        entry_url: req.entry_url.clone(),
        thumbnail_url: req.thumbnail_url.clone(),
        author: req.author.clone(),
        min_players,
        max_players,
        installed_by,
        installed_at,
        manifest_url,
    };
    let response = InstalledGameResponse {
        id,
        name: req.name.clone(),
        entry_url: req.entry_url.clone(),
        version,
        description: req.description.clone(),
        thumbnail_url: req.thumbnail_url.clone(),
        author: req.author.clone(),
        min_players,
        max_players,
    };
    Ok((row, response))
}

/// Why no session may be created, where none may.
pub open spec fn session_refusal(
    perms: UserPermissions,
    game_exists: bool,
    channel_exists: bool,
) -> Option<HubRefusal> {
    if perms.refusal(START_GAME@) is Some {
        perms.refusal(START_GAME@)
    } else if !game_exists {
        Some(hub_refusal(404, "Game not found on this hub"@))
    } else if !channel_exists {
        Some(hub_refusal(404, "Channel not found"@))
    } else {
        None
    }
}

/// A session that was created: the row to store, what is told in the channel, and the answer.
pub struct CreatedSession {
    pub row: GameSessionRow,
    pub event: GameEvent,
    pub response: SessionResponse,
}

/// Whether the session was created: with an empty state, and its host as the only player in
/// memory. The answer names no players.
pub open spec fn session_created(
    x: CreatedSession,
    s: GameSessionState,
    channel: Seq<char>,
    game: Seq<char>,
    user: Seq<char>,
    id: Seq<char>,
    now: Seq<char>,
) -> bool {
    &&& x.row.id@ == id
    &&& x.row.channel_id@ == channel
    &&& x.row.game_id@ == game
    &&& x.row.host_pubkey@ == user
    &&& x.row.state_json@ == "{}"@
    &&& x.row.created_at@ == now
    &&& x.row.ended_at is None
    &&& x.event.channel_id@ == channel
    &&& x.event.message matches GameMessage::SessionCreated {
        session_id,
        channel_id,
        game_id,
        host_pubkey,
    } && session_id@ == id && channel_id@ == channel && game_id@ == game && host_pubkey@ == user
    &&& x.response.id@ == id
    &&& x.response.channel_id@ == channel
    &&& x.response.game_id@ == game
    &&& x.response.host_pubkey@ == user
    &&& x.response.players@.len() == 0
    &&& x.response.state_json@ == "{}"@
    &&& x.response.created_at@ == now
    &&& x.response.ended_at is None
    &&& s.id@ == id
    &&& s.channel_id@ == channel
    &&& s.game_id@ == game
    &&& s.host_pubkey@ == user
    &&& texts(s.players@) == seq![user]
    &&& s.in_memory_state matches Payload::Object(f) && f@.len() == 0
}

/// Creates a session under the given identifier. Times are texts.
pub fn create_session(
    perms: &UserPermissions,
    sessions: &mut Table<String, GameSessionState>,
    channel_id: &str,
    req: &CreateSessionRequest,
    game_exists: bool,
    channel_exists: bool,
    user_key: &str,
    session_id: &str,
    now: &str,
) -> (r: Result<CreatedSession, HubError>)
    requires
        old(sessions).wf(),
    ensures
        final(sessions).wf(),
        match session_refusal(*perms, game_exists, channel_exists) {
            Some(d) => refused(r, d) && final(sessions)@ == old(sessions)@,
            None => r matches Ok(x) && session_created(
                x,
                final(sessions)@[session_id@],
                channel_id@,
                req.game_id@,
                user_key@,
                session_id@,
                now@,
            ) && final(sessions)@ == old(sessions)@.insert(
                session_id@,
                final(sessions)@[session_id@],
            ),
        },
{
    match perms.require(START_GAME) {
        Ok(_) => {},
        Err(e) => return Err(e),
    }
    if !game_exists {
        return Err(refuse(404, "Game not found on this hub"));
    }
    if !channel_exists {
        return Err(refuse(404, "Channel not found"));
    }
    let mut players: Vec<String> = Vec::new();
    players.push(user_key.to_owned());
    assert(texts(players@) =~= seq![user_key@]);
    sessions.insert(
        session_id.to_owned(),
        GameSessionState {
            id: session_id.to_owned(),
            channel_id: channel_id.to_owned(),
            game_id: req.game_id.clone(),
            host_pubkey: user_key.to_owned(),
            players,
            in_memory_state: Payload::Object(Vec::new()),
        },
    );
    Ok(
        CreatedSession {
            row: GameSessionRow {
                id: session_id.to_owned(),
                channel_id: channel_id.to_owned(),
                game_id: req.game_id.clone(),
                host_pubkey: user_key.to_owned(),
                state_json: "{}".to_owned(),
                created_at: now.to_owned(),
                ended_at: None,
            },
            event: GameEvent {
                channel_id: channel_id.to_owned(),
                message: GameMessage::SessionCreated {
                    session_id: session_id.to_owned(),
                    channel_id: channel_id.to_owned(),
                    game_id: req.game_id.clone(),
                    host_pubkey: user_key.to_owned(),
                },
            },
            response: SessionResponse {
                id: session_id.to_owned(),
                channel_id: channel_id.to_owned(),
                game_id: req.game_id.clone(),
                host_pubkey: user_key.to_owned(),
                players: Vec::new(),
                state_json: "{}".to_owned(),
                created_at: now.to_owned(),
                ended_at: None,
            },
        },
    )
}

/// Why the session cannot be used, where it cannot: it must be there and not have ended.
pub open spec fn closed_refusal(row: Option<GameSessionRow>) -> Option<HubRefusal> {
    match row {
        None => Some(hub_refusal(404, "Session not found"@)),
        Some(s) => if s.ended_at is Some {
            Some(hub_refusal(410, "Session has ended"@))
        } else {
            None
        },
    }
}

/// The session, where it is there and has not ended.
pub fn fetch_open_session(row: &Option<GameSessionRow>) -> (r: Result<&GameSessionRow, HubError>)
    ensures
        match closed_refusal(*row) {
            Some(d) => refused(r, d),
            None => r matches Ok(s) && *s == row->0,
        },
{
    match row {
        None => Err(refuse(404, "Session not found")),
        Some(s) => if s.ended_at.is_some() {
            Err(refuse(410, "Session has ended"))
        } else {
            Ok(s)
        },
    }
}

/// The players of the session that are in memory; none where it is not.
pub open spec fn players_of(m: Map<Seq<char>, GameSessionState>, id: Seq<char>) -> Seq<Seq<char>> {
    if m.dom().contains(id) {
        texts(m[id].players@)
    } else {
        Seq::empty()
    }
}

/// Whether the answer shows the session. A state that cannot be read is the empty object.
pub open spec fn session_shown(
    s: SessionResponse,
    row: GameSessionRow,
    players: Seq<Seq<char>>,
    id: Seq<char>,
) -> bool {
    &&& s.id@ == id
    &&& s.channel_id == row.channel_id
    &&& s.game_id == row.game_id
    &&& s.host_pubkey == row.host_pubkey
    &&& texts(s.players@) == players
    &&& s.state_json@ == json_or(row.state_json@, "{}"@)
    &&& s.created_at == row.created_at
    &&& opt_text(s.ended_at) == opt_text(row.ended_at)
}

fn session_row_to_response(
    row: &GameSessionRow,
    sessions: &Table<String, GameSessionState>,
    session_id: &String,
) -> (r: SessionResponse)
    requires
        sessions.wf(),
    ensures
        session_shown(r, *row, players_of(sessions@, session_id@), session_id@),
{
    let players: Vec<String> = match sessions.get(session_id) {
        Some(s) => copy_texts(&s.players),
        None => {
            let none: Vec<String> = Vec::new();
            assert(texts(none@) =~= Seq::<Seq<char>>::empty());
            none
        },
    };
    let state_json: String = if json_valid(row.state_json.as_str()) {
        row.state_json.clone()
    } else {
        "{}".to_owned()
    };
    SessionResponse {
        id: session_id.clone(),
        channel_id: row.channel_id.clone(),
        game_id: row.game_id.clone(),
        host_pubkey: row.host_pubkey.clone(),
        players,
        state_json,
        created_at: row.created_at.clone(),
        ended_at: row.ended_at.clone(),
    }
}

/// The players with another one, who stands once.
pub open spec fn with_player(players: Seq<Seq<char>>, user: Seq<char>) -> Seq<Seq<char>> {
    if players.contains(user) {
        players
    } else {
        players.push(user)
    }
}

/// Whether the session has the player as well, and is otherwise as it was.
pub open spec fn joined(new: GameSessionState, before: GameSessionState, user: Seq<char>) -> bool {
    &&& texts(new.players@) == with_player(texts(before.players@), user)
    &&& new == (GameSessionState { players: new.players, ..before })
}

/// Whether the sessions in memory are as they were, but for the one.
pub open spec fn only_changed(
    new: Map<Seq<char>, GameSessionState>,
    before: Map<Seq<char>, GameSessionState>,
    id: Seq<char>,
) -> bool {
    &&& new.dom() == before.dom()
    &&& forall|k: Seq<char>|
        k != id && before.dom().contains(k) ==> #[trigger] new[k] == before[k]
}

/// Joins a session: what is told in the channel, and the answer.
pub fn join_session(
    sessions: &mut Table<String, GameSessionState>,
    row: &Option<GameSessionRow>,
    user_key: &str,
    session_id: &String,
) -> (r: Result<(GameEvent, SessionResponse), HubError>)
    requires
        old(sessions).wf(),
    ensures
        final(sessions).wf(),
        match closed_refusal(*row) {
            Some(d) => refused(r, d) && final(sessions)@ == old(sessions)@,
            None => {
                &&& only_changed(final(sessions)@, old(sessions)@, session_id@)
                &&& old(sessions)@.dom().contains(session_id@) ==> joined(
                    final(sessions)@[session_id@],
                    old(sessions)@[session_id@],
                    user_key@,
                )
                &&& r matches Ok(x) && x.0.channel_id@ == row->0.channel_id@
                    && session_joined(x.0.message, session_id@, user_key@) && session_shown(
                    x.1,
                    row->0,
                    players_of(final(sessions)@, session_id@),
                    session_id@,
                )
            },
        },
{
    let s = match fetch_open_session(row) {
        Ok(s) => s,
        Err(e) => return Err(e),
    };
    match sessions.remove(session_id) {
        Some(state) => {
            let mut state = state;
            if !contains_text(&state.players, user_key) {
                let ghost before = texts(state.players@);
                state.players.push(user_key.to_owned());
                assert(texts(state.players@) =~= before.push(user_key@));
            }
            sessions.insert(session_id.clone(), state);
            assert(sessions@.dom() =~= old(sessions)@.dom());
        },
        None => {
            assert(sessions@ =~= old(sessions)@);
        },
    }
    let event = GameEvent {
        channel_id: s.channel_id.clone(),
        message: GameMessage::SessionJoined {
            session_id: session_id.clone(),
            player_pubkey: user_key.to_owned(),
        },
    };
    Ok((event, session_row_to_response(s, sessions, session_id)))
}

/// Whether the message tells that the user joined.
pub open spec fn session_joined(m: GameMessage, id: Seq<char>, user: Seq<char>) -> bool {
    m matches GameMessage::SessionJoined { session_id, player_pubkey } && session_id@ == id
        && player_pubkey@ == user
}

/// Joining twice is joining once.
pub proof fn joining_is_idempotent(players: Seq<Seq<char>>, user: Seq<char>)
    ensures
        with_player(with_player(players, user), user) == with_player(players, user),
        with_player(players, user).contains(user),
{
    if !players.contains(user) {
        assert(players.push(user)[players.len() as int] == user);
    }
}

/// No player stands twice, however many join.
pub proof fn players_stay_distinct(players: Seq<Seq<char>>, user: Seq<char>)
    requires
        players.no_duplicates(),
    ensures
        with_player(players, user).no_duplicates(),
{
}

/// The session as it stands.
pub fn get_session(
    sessions: &Table<String, GameSessionState>,
    row: &Option<GameSessionRow>,
    session_id: &String,
) -> (r: Result<SessionResponse, HubError>)
    requires
        sessions.wf(),
    ensures
        match closed_refusal(*row) {
            Some(d) => refused(r, d),
            None => r matches Ok(s) && session_shown(
                s,
                row->0,
                players_of(sessions@, session_id@),
                session_id@,
            ),
        },
{
    match fetch_open_session(row) {
        Ok(s) => Ok(session_row_to_response(s, sessions, session_id)),
        Err(e) => Err(e),
    }
}

/// Whether the state is the old one with the change: of two objects each member of the change
/// counts, and every other one stays; where either is no object, the change is the state.
pub open spec fn merged(new: Payload, current: Payload, patch: Payload) -> bool {
    if current is Object && patch is Object {
        new is Object && forall|k: Seq<char>| #[trigger]
            value_of(members(new), k) == match value_of(members(patch), k) {
                Some(v) => Some(v),
                None => value_of(members(current), k),
            }
    } else {
        same_payload(new, patch)
    }
}

/// The state with the change.
pub fn merge_state(current: &Payload, patch: &Payload) -> (r: Payload)
    ensures
        merged(r, *current, *patch),
{
    match (current, patch) {
        (Payload::Object(f), Payload::Object(g)) => {
            let mut out: Vec<JsonField> = Vec::new();
            let mut i: usize = 0;
            while i < f.len()
                invariant
                    i <= f@.len(),
                    forall|k: Seq<char>| #[trigger]
                        value_of(out@, k) == if value_of(g@, k) is Some {
                            None
                        } else {
                            value_of(f@.take(i as int), k)
                        },
                decreases f@.len() - i,
            {
                let ghost before = out@;
                proof {
                    assert(f@.take(i as int + 1) =~= f@.take(i as int).push(f@[i as int]));
                    assert forall|k: Seq<char>|
                        #[trigger] value_of(f@.take(i as int + 1), k) == if f@[i as int].key@
                            == k {
                            Some(f@[i as int].value@)
                        } else {
                            value_of(f@.take(i as int), k)
                        } by {
                        lemma_value_push(f@.take(i as int), f@[i as int], k);
                    }
                }
                if !holds_key(g, f[i].key.as_str()) {
                    let kept = JsonField {
                        key: f[i].key.clone(),
                        value: copy_value(&f[i].value),
                    };
                    out.push(kept);
                    proof {
                        assert forall|k: Seq<char>| #[trigger] value_of(out@, k) == if value_of(
                            g@,
                            k,
                        ) is Some {
                            None
                        } else {
                            value_of(f@.take(i as int + 1), k)
                        } by {
                            lemma_value_push(before, kept, k);
                        }
                    }
                }
                i = i + 1;
            }
            assert(f@.take(f@.len() as int) =~= f@);
            let mut j: usize = 0;
            while j < g.len()
                invariant
                    j <= g@.len(),
                    forall|k: Seq<char>| #[trigger]
                        value_of(out@, k) == match value_of(g@.take(j as int), k) {
                            Some(v) => Some(v),
                            None => if value_of(g@, k) is Some {
                                None
                            } else {
                                value_of(f@, k)
                            },
                        },
                decreases g@.len() - j,
            {
                let ghost before = out@;
                let added = JsonField { key: g[j].key.clone(), value: copy_value(&g[j].value) };
                out.push(added);
                proof {
                    assert(g@.take(j as int + 1) =~= g@.take(j as int).push(g@[j as int]));
                    assert forall|k: Seq<char>|
                        #[trigger] value_of(out@, k) == match value_of(g@.take(j as int + 1), k) {
                            Some(v) => Some(v),
                            None => if value_of(g@, k) is Some {
                                None
                            } else {
                                value_of(f@, k)
                            },
                        } by {
                        lemma_value_push(before, added, k);
                        lemma_value_push(g@.take(j as int), g@[j as int], k);
                    }
                }
                j = j + 1;
            }
            assert(g@.take(g@.len() as int) =~= g@);
            Payload::Object(out)
        },
        _ => copy_payload(patch),
    }
}

/// A change made twice is made once.
pub proof fn merging_is_idempotent(once: Payload, twice: Payload, current: Payload, patch: Payload)
    requires
        merged(once, current, patch),
        merged(twice, once, patch),
    ensures
        same_payload(twice, once),
{
}

/// Why the state may not be changed, where it may not: only the host and an admin may.
pub open spec fn host_refusal(
    row: Option<GameSessionRow>,
    perms: UserPermissions,
    user: Seq<char>,
    message: Seq<char>,
) -> Option<HubRefusal> {
    if closed_refusal(row) is Some {
        closed_refusal(row)
    } else if row->0.host_pubkey@ != user && !perms.may(ADMIN@) {
        Some(hub_refusal(403, message))
    } else {
        None
    }
}

fn require_host<'a>(
    row: &'a Option<GameSessionRow>,
    perms: &UserPermissions,
    user_key: &str,
    message: &str,
) -> (r: Result<&'a GameSessionRow, HubError>)
    ensures
        match host_refusal(*row, *perms, user_key@, message@) {
            Some(d) => refused(r, d),
            None => r matches Ok(s) && *s == row->0,
        },
{
    match fetch_open_session(row) {
        Ok(s) => if !same(s.host_pubkey.as_str(), user_key) && !perms.has(ADMIN) {
            Err(refuse(403, message))
        } else {
            Ok(s)
        },
        Err(e) => Err(e),
    }
}

/// Changes the state of a session, given the state that is stored: the state afterwards, and
/// what is told in the channel.
pub fn patch_state(
    sessions: &mut Table<String, GameSessionState>,
    row: &Option<GameSessionRow>,
    perms: &UserPermissions,
    user_key: &str,
    session_id: &String,
    current: &Payload,
    req: PatchStateRequest,
) -> (r: Result<(Payload, GameEvent), HubError>)
    requires
        old(sessions).wf(),
    ensures
        final(sessions).wf(),
        match host_refusal(
            *row,
            *perms,
            user_key@,
            "Only the host can patch session state"@,
        ) {
            Some(d) => refused(r, d) && final(sessions)@ == old(sessions)@,
            None => {
                &&& r matches Ok(x) && merged(x.0, *current, req.patch) && x.1.channel_id@
                    == row->0.channel_id@ && state_told(x.1.message, session_id@, req.patch)
                &&& only_changed(final(sessions)@, old(sessions)@, session_id@)
                &&& old(sessions)@.dom().contains(session_id@) ==> ({
                    let new = final(sessions)@[session_id@];
                    &&& same_payload(new.in_memory_state, r->Ok_0.0)
                    &&& new == (GameSessionState {
                        in_memory_state: new.in_memory_state,
                        ..old(sessions)@[session_id@]
                    })
                })
            },
        },
{
    let s = match require_host(row, perms, user_key, "Only the host can patch session state") {
        Ok(s) => s,
        Err(e) => return Err(e),
    };
    let new = merge_state(current, &req.patch);
    match sessions.remove(session_id) {
        Some(state) => {
            let mut state = state;
            state.in_memory_state = copy_payload(&new);
            sessions.insert(session_id.clone(), state);
            assert(sessions@.dom() =~= old(sessions)@.dom());
        },
        None => {
            assert(sessions@ =~= old(sessions)@);
        },
    }
    let event = GameEvent {
        channel_id: s.channel_id.clone(),
        message: GameMessage::StateUpdated { session_id: session_id.clone(), patch: req.patch },
    };
    Ok((new, event))
}

/// Whether the message tells of the change.
pub open spec fn state_told(m: GameMessage, id: Seq<char>, patch: Payload) -> bool {
    m matches GameMessage::StateUpdated { session_id, patch: p } && session_id@ == id && p == patch
}

/// Sets a value that the players of a session share. The answer has no content.
pub fn set_shared_kv(
    store: &mut Table<Pair, KvEntry>,
    row: &Option<GameSessionRow>,
    session_id: &str,
    key: &str,
    req: SetKvRequest,
    now: String,
) -> (r: Result<u16, HubError>)
    requires
        old(store).wf(),
    ensures
        final(store).wf(),
        match closed_refusal(*row) {
            Some(d) => refused(r, d) && final(store)@ == old(store)@,
            None => r == Ok::<u16, HubError>(204) && final(store)@ == old(store)@.insert(
                (session_id@, key@),
                (KvEntry { value: req.value, updated_at: now }),
            ),
        },
{
    match fetch_open_session(row) {
        Ok(_) => {},
        Err(e) => return Err(e),
    }
    store.insert(pair(session_id, key), KvEntry { value: req.value, updated_at: now });
    Ok(204)
}

/// Whether the answer is what a read of the store gives.
pub open spec fn kv_read(
    r: Result<KvResponse, HubError>,
    m: Map<(Seq<char>, Seq<char>), KvEntry>,
    session: Seq<char>,
    key: Seq<char>,
) -> bool {
    if m.dom().contains((session, key)) {
        r matches Ok(x) && x.session_id@ == session && x.key@ == key && x.value@ == m[(
            session,
            key,
        )].value@ && x.updated_at@ == m[(session, key)].updated_at@
    } else {
        refused(r, hub_refusal(404, "Key not found"@))
    }
}

/// A value that the players of a session share.
pub fn get_shared_kv(store: &Table<Pair, KvEntry>, session_id: &str, key: &str) -> (r: Result<
    KvResponse,
    HubError,
>)
    requires
        store.wf(),
    ensures
        kv_read(r, store@, session_id@, key@),
{
    match store.get(&pair(session_id, key)) {
        Some(e) => Ok(
            KvResponse {
                session_id: session_id.to_owned(),
                key: key.to_owned(),
                value: e.value.clone(),
                updated_at: e.updated_at.clone(),
            },
        ),
        None => Err(refuse(404, "Key not found")),
    }
}

/// A read gives back what was written last, and a write touches no other value.
pub proof fn read_gives_back_the_write(
    before: Map<(Seq<char>, Seq<char>), KvEntry>,
    session: Seq<char>,
    key: Seq<char>,
    entry: KvEntry,
    r: Result<KvResponse, HubError>,
    other_session: Seq<char>,
    other_key: Seq<char>,
    other: Result<KvResponse, HubError>,
)
    requires
        kv_read(r, before.insert((session, key), entry), session, key),
        (other_session, other_key) != (session, key),
    ensures
        r matches Ok(x) && x.value@ == entry.value@ && x.updated_at@ == entry.updated_at@,
        kv_read(other, before.insert((session, key), entry), other_session, other_key) <==> kv_read(
            other,
            before,
            other_session,
            other_key,
        ),
{
}

/// Ends a session, which is then out of memory: the row afterwards, and what is told in the
/// channel.
pub fn end_session(
    sessions: &mut Table<String, GameSessionState>,
    row: &Option<GameSessionRow>,
    perms: &UserPermissions,
    user_key: &str,
    session_id: &String,
    now: &str,
) -> (r: Result<(GameSessionRow, GameEvent), HubError>)
    requires
        old(sessions).wf(),
    ensures
        final(sessions).wf(),
        match host_refusal(
            *row,
            *perms,
            user_key@,
            "Only the host or an admin can end the session"@,
        ) {
            Some(d) => refused(r, d) && final(sessions)@ == old(sessions)@,
            None => {
                &&& final(sessions)@ == old(sessions)@.remove(session_id@)
                &&& r matches Ok(x) && opt_text(x.0.ended_at) == Some(now@) && x.0 == (
                GameSessionRow { ended_at: x.0.ended_at, ..row->0 }) && x.1.channel_id@
                    == row->0.channel_id@ && session_over(x.1.message, session_id@)
            },
        },
{
    let s = match require_host(
        row,
        perms,
        user_key,
        "Only the host or an admin can end the session",
    ) {
        Ok(s) => s,
        Err(e) => return Err(e),
    };
    sessions.remove(session_id);
    let ended = GameSessionRow {
        id: s.id.clone(),
        channel_id: s.channel_id.clone(),
        game_id: s.game_id.clone(),
        host_pubkey: s.host_pubkey.clone(),
        state_json: s.state_json.clone(),
        created_at: s.created_at.clone(),
        ended_at: Some(now.to_owned()),
    };
    let event = GameEvent {
        channel_id: s.channel_id.clone(),
        message: GameMessage::SessionEnded { session_id: session_id.clone() },
    };
    Ok((ended, event))
}

/// Whether the message tells that the session is over.
pub open spec fn session_over(m: GameMessage, id: Seq<char>) -> bool {
    m matches GameMessage::SessionEnded { session_id } && session_id@ == id
}

/// A session that has ended takes no one in and changes no more.
pub proof fn ended_stays_ended(
    row: GameSessionRow,
    perms: UserPermissions,
    user: Seq<char>,
    message: Seq<char>,
)
    requires
        row.ended_at is Some,
    ensures
        closed_refusal(Some(row)) == Some(hub_refusal(410, "Session has ended"@)),
        host_refusal(Some(row), perms, user, message) == Some(
            hub_refusal(410, "Session has ended"@),
        ),
{
}

/// A game is installed by those who manage games, as it was asked for; under the identifier that
/// was given, or else under one that its address alone decides. One that is installed again keeps
/// who installed it first, and when.
pub proof fn a_game_is_installed_as_asked(
    perms: &UserPermissions,
    req: &InstallGameRequest,
    known: &Option<GameRow>,
    user: &str,
    now: i64,
    r: Result<(GameRow, InstalledGameResponse), HubError>,
    other: &InstallGameRequest,
    id: String,
    other_id: String,
)
    requires
        call_ensures(install_game, (perms, req, known, user, now), r),
        call_ensures(game_id, (req,), id),
        call_ensures(game_id, (other,), other_id),
    ensures
        r is Ok <==> allows(*perms, "manage_games"@),
        r matches Err(e) ==> e.status == 403,
        req.id matches Some(given) ==> id@ == given@,
        req.id is None && other.id is None && req.entry_url@ == other.entry_url@ ==> id@
            == other_id@,
        req.id is None ==> "game-"@.is_prefix_of(id@),
        r matches Ok(x) ==> ({
            let g = x.0;
            &&& g.id@ == id@ && x.1.id@ == id@
            &&& g.name@ == req.name@ && x.1.name@ == req.name@
            &&& g.entry_url@ == req.entry_url@ && x.1.entry_url@ == req.entry_url@
            &&& opt_text(g.description) == opt_text(req.description)
            &&& opt_text(g.thumbnail_url) == opt_text(req.thumbnail_url)
            &&& opt_text(g.author) == opt_text(req.author)
            &&& req.version matches Some(v) ==> g.version@ == v@ && x.1.version@ == v@
            &&& req.version is None ==> g.version@ == "1.0.0"@
            &&& req.min_players matches Some(n) ==> g.min_players == n && x.1.min_players == n
            &&& req.min_players is None ==> g.min_players == 1
            &&& req.max_players matches Some(n) ==> g.max_players == n && x.1.max_players == n
            &&& req.max_players is None ==> g.max_players == 1
            &&& opt_text(x.1.description) == opt_text(req.description)
            &&& opt_text(x.1.thumbnail_url) == opt_text(req.thumbnail_url)
            &&& opt_text(x.1.author) == opt_text(req.author)
            &&& x.1.version@ == g.version@
            &&& x.1.min_players == g.min_players && x.1.max_players == g.max_players
            &&& known is None ==> g.installed_by@ == user@ && g.installed_at == now
                && g.manifest_url@.len() == 0
            &&& known matches Some(k) ==> g.installed_by@ == k.installed_by@ && g.installed_at
                == k.installed_at && g.manifest_url@ == k.manifest_url@
        }),
{
    lemma_may_is_allowed(*perms, MANAGE_GAMES@);
    if req.id is None {
        assert("game-"@ =~= id@.subrange(0, "game-"@.len() as int));
    }
}

/// A session is begun by those who may start games, of a game and in a channel that are there:
/// the one who begins it is its host and its first player, its state is empty, the channel is
/// told, and no other session changes.
pub proof fn a_session_is_begun_by_its_host(
    perms: &UserPermissions,
    sessions: &mut Table<String, GameSessionState>,
    channel: &str,
    req: &CreateSessionRequest,
    game_exists: bool,
    channel_exists: bool,
    user: &str,
    id: &str,
    now: &str,
    r: Result<CreatedSession, HubError>,
    other: Seq<char>,
)
    requires
        call_ensures(
            create_session,
            (perms, sessions, channel, req, game_exists, channel_exists, user, id, now),
            r,
        ),
    ensures
        r is Ok <==> allows(*perms, "start_game"@) && game_exists && channel_exists,
        r matches Err(e) ==> e.status == if allows(*perms, "start_game"@) {
            404int
        } else {
            403
        },
        r is Err ==> final(sessions)@ == old(sessions)@,
        r matches Ok(x) ==> ({
            let s = final(sessions)@[id@];
            &&& final(sessions)@.dom().contains(id@)
            &&& s.host_pubkey@ == user@ && s.players@.len() == 1 && s.players@[0]@ == user@
            &&& s.game_id@ == req.game_id@ && s.channel_id@ == channel@
            &&& s.in_memory_state matches Payload::Object(f) && f@.len() == 0
            &&& x.row.id@ == id@ && x.row.host_pubkey@ == user@ && x.row.game_id@ == req.game_id@
            &&& x.row.channel_id@ == channel@ && x.row.ended_at is None
            &&& x.row.created_at@ == now@ && x.row.state_json@ == "{}"@
            &&& x.event.channel_id@ == channel@
            &&& x.event.message matches GameMessage::SessionCreated {
                session_id,
                game_id,
                host_pubkey,
                ..
            } && session_id@ == id@ && game_id@ == req.game_id@ && host_pubkey@ == user@
            &&& x.response.id@ == id@ && x.response.host_pubkey@ == user@
            &&& x.response.channel_id@ == channel@ && x.response.game_id@ == req.game_id@
            &&& x.response.players@.len() == 0 && x.response.state_json@ == "{}"@
            &&& x.response.created_at@ == now@ && x.response.ended_at is None
            &&& s.id@ == id@
        }),
        other != id@ ==> (final(sessions)@.dom().contains(other) <==> old(sessions)@.dom().contains(other)) && (old(sessions)@.dom().contains(other) ==> final(sessions)@[other] == old(sessions)@[other]),
{
    lemma_may_is_allowed(*perms, START_GAME@);
    if r is Ok {
        let s = final(sessions)@[id@];
        assert(texts(s.players@).len() == s.players@.len());
        assert(texts(s.players@)[0] == s.players@[0]@);
        assert(texts(s.players@) == seq![user@]);
    }
}

/// Only a session that is there and has not ended can be used, read or joined.
pub proof fn only_an_open_session_is_used(
    row: &Option<GameSessionRow>,
    r: Result<&GameSessionRow, HubError>,
)
    requires
        call_ensures(fetch_open_session, (row,), r),
    ensures
        r is Ok <==> row is Some && row->0.ended_at is None,
        r matches Ok(s) ==> *s == row->0,
        r matches Err(e) ==> e.status == if row is Some {
            410int
        } else {
            404
        },
{
}

/// One who joins a session that is played is one of its players, once; those who were there stay,
/// the channel is told who came, and the answer names all of them.
pub proof fn one_who_joins_is_a_player(
    sessions: &mut Table<String, GameSessionState>,
    row: &Option<GameSessionRow>,
    user: &str,
    id: &String,
    r: Result<(GameEvent, SessionResponse), HubError>,
    player: Seq<char>,
    other: Seq<char>,
)
    requires
        call_ensures(join_session, (sessions, row, user, id), r),
    ensures
        r is Ok <==> row is Some && row->0.ended_at is None,
        r is Err ==> final(sessions)@ == old(sessions)@,
        final(sessions)@.dom() == old(sessions)@.dom(),
        r is Ok && old(sessions)@.dom().contains(id@) ==> (texts(
            final(sessions)@[id@].players@,
        ).contains(player) <==> player == user@ || texts(old(sessions)@[id@].players@).contains(
            player,
        )),
        r is Ok && old(sessions)@.dom().contains(id@) && texts(
            old(sessions)@[id@].players@,
        ).contains(user@) ==> texts(final(sessions)@[id@].players@) == texts(
            old(sessions)@[id@].players@,
        ),
        other != id@ && old(sessions)@.dom().contains(other) ==> final(sessions)@[other] == old(sessions)@[other],
        old(sessions)@.dom().contains(id@) ==> final(sessions)@[id@] == (GameSessionState {
            players: final(sessions)@[id@].players,
            ..old(sessions)@[id@]
        }),
        r matches Ok(x) ==> x.0.channel_id@ == row->0.channel_id@ && (x.0.message
            matches GameMessage::SessionJoined { session_id, player_pubkey } && session_id@ == id@
            && player_pubkey@ == user@),
        r matches Ok(x) ==> x.1.id@ == id@ && x.1.game_id == row->0.game_id && x.1.host_pubkey
            == row->0.host_pubkey && x.1.channel_id == row->0.channel_id && (old(sessions)@.dom().contains(id@) ==> texts(x.1.players@) == texts(
            final(sessions)@[id@].players@,
        )),
{
    if r is Ok && old(sessions)@.dom().contains(id@) {
        let before = texts(old(sessions)@[id@].players@);
        let after = texts(final(sessions)@[id@].players@);
        if !before.contains(user@) {
            assert(after == before.push(user@));
            assert(after[before.len() as int] == user@);
            if before.contains(player) {
                let k: int = choose|k: int| 0 <= k < before.len() && before[k] == player;
                assert(after[k] == player);
            }
            if after.contains(player) && player != user@ {
                let k: int = choose|k: int| 0 <= k < after.len() && after[k] == player;
                assert(before[k] == player);
            }
        }
    }
}

/// A session is shown as it stands: where it is played, with its players.
pub proof fn a_session_is_shown_as_it_stands(
    sessions: &Table<String, GameSessionState>,
    row: &Option<GameSessionRow>,
    id: &String,
    r: Result<SessionResponse, HubError>,
)
    requires
        sessions.wf(),
        call_ensures(get_session, (sessions, row, id), r),
    ensures
        r is Ok <==> row is Some && row->0.ended_at is None,
        r matches Ok(s) ==> s.id@ == id@ && s.channel_id == row->0.channel_id && s.game_id
            == row->0.game_id && s.host_pubkey == row->0.host_pubkey && s.created_at
            == row->0.created_at && s.ended_at is None,
        r matches Ok(s) ==> (is_json(row->0.state_json@) ==> s.state_json@ == row->0.state_json@) && (
        !is_json(row->0.state_json@) ==> s.state_json@ == "{}"@),
        r is Ok && sessions@.dom().contains(id@) ==> texts(r->Ok_0.players@) == texts(
            sessions@[id@].players@,
        ),
        r is Ok && !sessions@.dom().contains(id@) ==> r->Ok_0.players@.len() == 0,
{
    if r is Ok {
        assert(texts(r->Ok_0.players@).len() == r->Ok_0.players@.len());
    }
}

/// Of a state that is changed, what the change gives is new, and what it does not give stays; a
/// change that is no object is the new state.
pub proof fn a_change_gives_what_it_gives(
    current: &Payload,
    patch: &Payload,
    r: Payload,
    key: Seq<char>,
)
    requires
        call_ensures(merge_state, (current, patch), r),
    ensures
        *current is Object && *patch is Object ==> r is Object,
        *current is Object && *patch is Object && value_of(members(*patch), key) is Some
            ==> value_of(members(r), key) == value_of(members(*patch), key),
        *current is Object && *patch is Object && value_of(members(*patch), key) is None
            ==> value_of(members(r), key) == value_of(members(*current), key),
        *patch matches Payload::Other(t) ==> (r matches Payload::Other(s) && s@ == t@),
        !(*current is Object) && *patch is Object ==> r is Object && value_of(members(r), key)
            == value_of(members(*patch), key),
{
}

/// The state of a session is changed by its host or an admin, while it has not ended: what is
/// stored is the state with the change, the same is kept in memory, and the channel is told the
/// change.
pub proof fn the_host_changes_the_state(
    sessions: &mut Table<String, GameSessionState>,
    row: &Option<GameSessionRow>,
    perms: &UserPermissions,
    user: &str,
    id: &String,
    current: &Payload,
    req: PatchStateRequest,
    r: Result<(Payload, GameEvent), HubError>,
    key: Seq<char>,
    other: Seq<char>,
)
    requires
        call_ensures(patch_state, (sessions, row, perms, user, id, current, req), r),
    ensures
        r is Ok <==> row is Some && row->0.ended_at is None && (row->0.host_pubkey@ == user@
            || allows(*perms, "admin"@)),
        r is Err && row is Some && row->0.ended_at is None ==> r->Err_0.status == 403,
        r is Err ==> final(sessions)@ == old(sessions)@,
        r is Ok && *current is Object && req.patch is Object ==> value_of(
            members(r->Ok_0.0),
            key,
        ) == if value_of(members(req.patch), key) is Some {
            value_of(members(req.patch), key)
        } else {
            value_of(members(*current), key)
        },
        r matches Ok(x) ==> x.1.channel_id@ == row->0.channel_id@ && (x.1.message
            matches GameMessage::StateUpdated { session_id, patch } && session_id@ == id@ && patch
            == req.patch),
        r is Ok && old(sessions)@.dom().contains(id@) && r->Ok_0.0 is Object ==> final(sessions)@[id@].in_memory_state is Object && value_of(
            members(final(sessions)@[id@].in_memory_state),
            key,
        ) == value_of(members(r->Ok_0.0), key),
        final(sessions)@.dom() == old(sessions)@.dom(),
        other != id@ && old(sessions)@.dom().contains(other) ==> final(sessions)@[other] == old(sessions)@[other],
        r is Ok && old(sessions)@.dom().contains(id@) ==> final(sessions)@[id@].players == old(sessions)@[id@].players && final(sessions)@[id@].host_pubkey == old(sessions)@[id@].host_pubkey,
{
    lemma_may_is_allowed(*perms, ADMIN@);
}

/// What a player writes for all while the session goes on is what everyone reads under the same
/// key, and no other value is touched; a key that was never written is not found.
pub proof fn players_read_what_was_written(
    store: &mut Table<Pair, KvEntry>,
    row: &Option<GameSessionRow>,
    session: &str,
    key: &str,
    req: SetKvRequest,
    now: String,
    w: Result<u16, HubError>,
    then: &Table<Pair, KvEntry>,
    s: &str,
    k: &str,
    r: Result<KvResponse, HubError>,
)
    requires
        call_ensures(set_shared_kv, (store, row, session, key, req, now), w),
        then.wf(),
        then@ == final(store)@,
        call_ensures(get_shared_kv, (then, s, k), r),
    ensures
        w is Ok <==> row is Some && row->0.ended_at is None,
        w is Ok && s@ == session@ && k@ == key@ ==> r is Ok && r->Ok_0.value@ == req.value@
            && r->Ok_0.updated_at@ == now@,
        r matches Ok(x) ==> x.session_id@ == s@ && x.key@ == k@,
        w is Err || s@ != session@ || k@ != key@ ==> (r is Ok <==> old(store)@.dom().contains(
            (s@, k@),
        )) && (r is Ok ==> r->Ok_0.value@ == old(store)@[(s@, k@)].value@),
        r matches Err(e) ==> e.status == 404,
{
}

/// A session is ended by its host or an admin: it is then over as of now and out of memory, the
/// channel is told, and no other session ends.
pub proof fn the_host_ends_the_session(
    sessions: &mut Table<String, GameSessionState>,
    row: &Option<GameSessionRow>,
    perms: &UserPermissions,
    user: &str,
    id: &String,
    now: &str,
    r: Result<(GameSessionRow, GameEvent), HubError>,
    other: Seq<char>,
)
    requires
        call_ensures(end_session, (sessions, row, perms, user, id, now), r),
    ensures
        r is Ok <==> row is Some && row->0.ended_at is None && (row->0.host_pubkey@ == user@
            || allows(*perms, "admin"@)),
        r is Err ==> final(sessions)@ == old(sessions)@,
        r is Ok ==> !final(sessions)@.dom().contains(id@),
        other != id@ ==> (final(sessions)@.dom().contains(other) <==> old(sessions)@.dom().contains(other)),
        r matches Ok(x) ==> x.0.ended_at is Some && x.0.ended_at->0@ == now@ && x.0.id == row->0.id
            && x.0.host_pubkey == row->0.host_pubkey && x.0.state_json == row->0.state_json
            && x.1.channel_id@ == row->0.channel_id@ && (x.1.message
            matches GameMessage::SessionEnded { session_id } && session_id@ == id@),
{
    lemma_may_is_allowed(*perms, ADMIN@);
}

} // verus!
