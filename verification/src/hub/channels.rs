//! The channels of a hub and the tree that they form.
use vstd::prelude::*;
use crate::hub::chat_models::{
    ChannelResponse, CreateChannelRequest, UpdateChannelRequest, VoiceParticipantInfo,
};
use crate::hub::payload::{
    concerns, field, one_member, two_members, HubEvent, JsonField, JsonValue, JsonView, Payload,
};
use crate::hub::permissions::{
    allows, lemma_may_is_allowed, UserPermissions, MANAGE_CHANNELS, MANAGE_CHANNEL_ICONS,
};
use crate::hub::voice::{get_voice_participants, in_voice, introduces, members_in, participants_are_those_in_voice, UserName, Voice};
use crate::hub::{hub_refusal, refuse, refuse_text, refused, HubError, HubRefusal};
use crate::number::{parse_unsigned, unsigned_value};
use crate::rows::{has_id, is_not, lemma_kept, remove_id, removed_is_gone, Identified};
use crate::text::{concat3, decimal, opt_text, same, texts, trim, trimmed, u64_text};

verus! {

/// A channel as it is stored.
pub struct ChannelRow {
    pub id: String,
    pub name: String,
    pub created_by: String,
    pub parent_id: Option<String>,
    pub is_category: i64,
    pub display_order: i64,
    pub description: Option<String>,
    pub icon: Option<String>,
    pub color: Option<String>,
    pub custom_icon_svg: Option<String>,
    pub created_at: i64,
}

/// The identifiers of the channels in the order in which they are to be shown.
pub struct ReorderRequest {
    pub channel_ids: Vec<String>,
}

/// Whether one of the counts is that of the channel.
pub open spec fn counts_channel(r: Seq<(String, usize)>, channel: Seq<char>) -> bool {
    exists|i: int| 0 <= i < r.len() && (#[trigger] r[i]).0@ == channel
}

/// How many are in each voice channel in which someone is.
pub fn voice_populations(voice: &Voice) -> (r: Vec<(String, usize)>)
    requires
        voice.wf(),
    ensures
        forall|i: int|
            0 <= i < r@.len() ==> (#[trigger] r@[i]).1 == members_in(
                voice.members.keys(),
                r@[i].0@,
            ).len() && r@[i].1 > 0,
        forall|i: int, j: int|
            0 <= i < j < r@.len() ==> (#[trigger] r@[i]).0@ != (#[trigger] r@[j]).0@,
        forall|c: Seq<char>|
            #![trigger members_in(voice.members.keys(), c)]
            #![trigger counts_channel(r@, c)]
            members_in(voice.members.keys(), c).len() > 0 ==> counts_channel(r@, c),
{
    voice.populations()
}

/// Who is in each voice channel in which someone is, with their names.
pub fn voice_channel_participants(voice: &Voice, names: &Vec<UserName>) -> (r: Vec<
    (String, Vec<VoiceParticipantInfo>),
>)
    requires
        voice.wf(),
    ensures
        forall|i: int|
            0 <= i < r@.len() ==> introduces(
                (#[trigger] r@[i]).1@,
                members_in(voice.members.keys(), r@[i].0@),
                names@,
            ) && r@[i].1@.len() > 0,
        forall|i: int, j: int|
            0 <= i < j < r@.len() ==> (#[trigger] r@[i]).0@ != (#[trigger] r@[j]).0@,
        forall|c: Seq<char>|
            #![trigger members_in(voice.members.keys(), c)]
            members_in(voice.members.keys(), c).len() > 0 ==> exists|i: int|
                0 <= i < r@.len() && (#[trigger] r@[i]).0@ == c,
{
    let counts = voice.populations();
    let mut out: Vec<(String, Vec<VoiceParticipantInfo>)> = Vec::new();
    let mut i: usize = 0;
    while i < counts.len()
        invariant
            voice.wf(),
            i <= counts@.len(),
            out@.len() == i,
            forall|k: int|
                0 <= k < counts@.len() ==> (#[trigger] counts@[k]).1 == members_in(
                    voice.members.keys(),
                    counts@[k].0@,
                ).len() && counts@[k].1 > 0,
            forall|k: int|
                0 <= k < i ==> (#[trigger] out@[k]).0@ == counts@[k].0@ && introduces(
                    out@[k].1@,
                    members_in(voice.members.keys(), out@[k].0@),
                    names@,
                ) && out@[k].1@.len() > 0,
        decreases counts@.len() - i,
    {
        let list = get_voice_participants(voice, counts[i].0.as_str(), names);
        out.push((counts[i].0.clone(), list));
        i = i + 1;
    }
    proof {
        assert forall|a: int, b: int| 0 <= a < b < out@.len() implies (#[trigger] out@[a]).0@ != (
        #[trigger] out@[b]).0@ by {
            assert(counts@[a].0@ != counts@[b].0@);
        }
        assert forall|c: Seq<char>|
            #![trigger members_in(voice.members.keys(), c)]
            members_in(voice.members.keys(), c).len() > 0 implies exists|k: int|
            0 <= k < out@.len() && (#[trigger] out@[k]).0@ == c by {
            let k = choose|k: int| 0 <= k < counts@.len() && (#[trigger] counts@[k]).0@ == c;
            assert(out@[k].0@ == c);
        }
    }
    out
}

/// Everyone who is in voice somewhere, each once.
pub fn voice_active_users(voice: &Voice) -> (r: Vec<String>)
    requires
        voice.wf(),
    ensures
        texts(r@).no_duplicates(),
        forall|u: Seq<char>| #[trigger]
            texts(r@).contains(u) <==> in_voice(voice.ports(), u),
{
    voice.active_users()
}

/// The channel with the identifier.
pub open spec fn row_of(rows: Seq<ChannelRow>, id: Seq<char>) -> Option<ChannelRow>
    decreases rows.len(),
{
    if rows.len() == 0 {
        None
    } else if rows[0].id@ == id {
        Some(rows[0])
    } else {
        row_of(rows.skip(1), id)
    }
}

/// The channel above a channel.
pub open spec fn parent_of(rows: Seq<ChannelRow>, id: Seq<char>) -> Option<Seq<char>> {
    match row_of(rows, id) {
        Some(r) => opt_text(r.parent_id),
        None => None,
    }
}

/// The channel that lies so many levels above a channel.
pub open spec fn climb(rows: Seq<ChannelRow>, id: Seq<char>, n: nat) -> Option<Seq<char>>
    decreases n,
{
    if n == 0 {
        Some(id)
    } else {
        match climb(rows, id, (n - 1) as nat) {
            Some(x) => parent_of(rows, x),
            None => None,
        }
    }
}

/// Whether no channel lies above itself.
pub open spec fn acyclic(rows: Seq<ChannelRow>) -> bool {
    forall|id: Seq<char>, n: nat| n > 0 ==> #[trigger] climb(rows, id, n) != Some(id)
}

/// Whether the candidate lies above the start, however many levels up.
pub open spec fn above(rows: Seq<ChannelRow>, candidate: Seq<char>, start: Seq<char>) -> bool {
    exists|n: nat| n > 0 && #[trigger] climb(rows, start, n) == Some(candidate)
}

/// How many channels lie above a channel, where they are at most so many.
pub open spec fn levels(rows: Seq<ChannelRow>, id: Seq<char>, most: nat) -> Option<nat>
    decreases most,
{
    match parent_of(rows, id) {
        None => Some(0),
        Some(p) => if most == 0 {
            None
        } else {
            match levels(rows, p, (most - 1) as nat) {
                Some(n) => Some((n + 1) as nat),
                None => None,
            }
        },
    }
}

/// The depth of something placed under the parent: 0 at the top. Nothing where the tree is
/// more than fifty levels deep there.
pub open spec fn depth_under(rows: Seq<ChannelRow>, parent: Option<Seq<char>>) -> Option<nat> {
    match parent {
        None => Some(0),
        Some(p) => match levels(rows, p, 49) {
            Some(n) => Some((n + 1) as nat),
            None => None,
        },
    }
}

fn find_row(rows: &Vec<ChannelRow>, id: &str) -> (r: Option<usize>)
    ensures
        match r {
            Some(i) => i < rows@.len() && row_of(rows@, id@) == Some(rows@[i as int])
                && rows@[i as int].id@ == id@,
            None => row_of(rows@, id@) is None,
        },
{
    let mut i: usize = 0;
    assert(rows@.skip(0) =~= rows@);
    while i < rows.len()
        invariant
            i <= rows@.len(),
            row_of(rows@, id@) == row_of(rows@.skip(i as int), id@),
        decreases rows@.len() - i,
    {
        assert(rows@.skip(i as int).skip(1) =~= rows@.skip(i as int + 1));
        if same(rows[i].id.as_str(), id) {
            return Some(i);
        }
        i = i + 1;
    }
    None
}

fn find_parent(rows: &Vec<ChannelRow>, id: &str) -> (r: Option<String>)
    ensures
        opt_text(r) == parent_of(rows@, id@),
{
    match find_row(rows, id) {
        Some(i) => rows[i].parent_id.clone(),
        None => None,
    }
}

/// The depth of something placed under the parent.
pub fn node_depth(rows: &Vec<ChannelRow>, parent_id: &Option<String>) -> (r: Result<u32, HubError>)
    ensures
        match depth_under(rows@, opt_text(*parent_id)) {
            Some(d) => r matches Ok(n) && n == d && n <= 50,
            None => refused(r, hub_refusal(400, "Channel nesting depth exceeds safety limit"@)),
        },
{
    match parent_id {
        None => Ok(0),
        Some(p) => {
            let mut depth: u32 = 1;
            let mut current: String = p.clone();
            loop
                invariant
                    1 <= depth <= 50,
                    opt_text(*parent_id) == Some(p@),
                    levels(rows@, p@, 49) == match levels(rows@, current@, (50 - depth) as nat) {
                        Some(n) => Some((n + depth - 1) as nat),
                        None => None::<nat>,
                    },
                decreases 50 - depth,
            {
                proof {
                    lemma_levels_bounded(rows@, current@, (50 - depth) as nat);
                }
                match find_parent(rows, current.as_str()) {
                    None => {
                        return Ok(depth);
                    },
                    Some(up) => {
                        if depth == 50 {
                            return Err(
                                refuse(400, "Channel nesting depth exceeds safety limit"),
                            );
                        }
                        depth = depth + 1;
                        current = up;
                    },
                }
            }
        },
    }
}

proof fn lemma_levels_bounded(rows: Seq<ChannelRow>, id: Seq<char>, most: nat)
    ensures
        match levels(rows, id, most) {
            Some(n) => n <= most,
            None => true,
        },
    decreases most,
{
    match parent_of(rows, id) {
        None => {},
        Some(p) => {
            if most > 0 {
                lemma_levels_bounded(rows, p, (most - 1) as nat);
            }
        },
    }
}

/// Whether the candidate lies above the start: going up from the start comes to it.
pub fn is_ancestor(rows: &Vec<ChannelRow>, candidate: &str, start: &str) -> (r: bool)
    ensures
        r == above(rows@, candidate@, start@),
{
    let mut current: String = start.to_owned();
    let mut i: usize = 0;
    while i < rows.len()
        invariant
            i <= rows@.len(),
            climb(rows@, start@, i as nat) == Some(current@),
            forall|n: nat|
                1 <= n <= i ==> #[trigger] climb(rows@, start@, n) != Some(candidate@),
        decreases rows@.len() - i,
    {
        match find_parent(rows, current.as_str()) {
            None => {
                proof {
                    assert(climb(rows@, start@, (i + 1) as nat) is None);
                    assert forall|n: nat| n > 0 implies #[trigger] climb(rows@, start@, n)
                        != Some(candidate@) by {
                        if n > i {
                            lemma_climb_ends(rows@, start@, (i + 1) as nat, n);
                        }
                    }
                }
                return false;
            },
            Some(p) => {
                assert(climb(rows@, start@, (i + 1) as nat) == Some(p@));
                if same(p.as_str(), candidate) {
                    return true;
                }
                current = p;
            },
        }
        i = i + 1;
    }
    proof {
        if above(rows@, candidate@, start@) {
            lemma_near_enough(rows@, candidate@, start@);
        }
    }
    false
}

/// Whether the candidate lies above the start, but nowhere lower than so many levels.
spec fn first_above(
    rows: Seq<ChannelRow>,
    candidate: Seq<char>,
    start: Seq<char>,
    n: nat,
) -> bool {
    &&& n > 0
    &&& climb(rows, start, n) == Some(candidate)
    &&& forall|m: nat| 0 < m < n ==> #[trigger] climb(rows, start, m) != Some(candidate)
}

proof fn lemma_first_above(rows: Seq<ChannelRow>, candidate: Seq<char>, start: Seq<char>, n: nat)
    requires
        n > 0,
        climb(rows, start, n) == Some(candidate),
    ensures
        exists|m: nat| m <= n && #[trigger] first_above(rows, candidate, start, m),
    decreases n,
{
    if !first_above(rows, candidate, start, n) {
        let m = choose|m: nat| 0 < m < n && #[trigger] climb(rows, start, m) == Some(candidate);
        lemma_first_above(rows, candidate, start, m);
    }
}

/// On the way to a channel above, none is met twice before it, so that it is found within as
/// many levels as there are channels.
proof fn lemma_near_enough(rows: Seq<ChannelRow>, candidate: Seq<char>, start: Seq<char>)
    requires
        above(rows, candidate, start),
    ensures
        exists|n: nat| 1 <= n <= rows.len() && #[trigger] climb(rows, start, n) == Some(candidate),
{
    let far = choose|n: nat| n > 0 && #[trigger] climb(rows, start, n) == Some(candidate);
    lemma_first_above(rows, candidate, start, far);
    let n = choose|m: nat| m <= far && #[trigger] first_above(rows, candidate, start, m);
    let way = Seq::new(n, |j: int| climb(rows, start, j as nat)->0);
    let ids = rows.map_values(|r: ChannelRow| r.id@);
    assert forall|j: nat| j < n implies (#[trigger] climb(rows, start, j)) is Some by {
        if climb(rows, start, j) is None {
            lemma_climb_ends(rows, start, j, n);
        }
    }
    assert forall|i: int, j: int| 0 <= i < j < n implies way[i] != way[j] by {
        if way[i] == way[j] {
            // The way from there on is the same from both places, so that the candidate comes
            // as early after the lower one.
            let rest = (n - j) as nat;
            assert(climb(rows, start, i as nat) == climb(rows, start, j as nat));
            lemma_climb_further(rows, start, i as nat, rest);
            lemma_climb_further(rows, start, j as nat, rest);
            assert(j as nat + rest == n);
            assert(climb(rows, start, i as nat + rest) == Some(candidate));
        }
    }
    assert(way.no_duplicates());
    way.unique_seq_to_set();
    vstd::seq_lib::seq_to_set_is_finite(ids);
    ids.lemma_cardinality_of_set();
    assert forall|x: Seq<char>| way.to_set().contains(x) implies ids.to_set().contains(x) by {
        let j = choose|j: int| 0 <= j < way.len() && way[j] == x;
        assert(climb(rows, start, (j + 1) as nat) == parent_of(rows, x)) by {
            assert(climb(rows, start, j as nat) == Some(x));
        }
        assert(climb(rows, start, (j + 1) as nat) is Some);
        lemma_row_stands(rows, x);
        let k = choose|k: int| 0 <= k < rows.len() && #[trigger] rows[k] == row_of(rows, x)->0;
        lemma_row_id(rows, x);
        assert(ids[k] == x);
    }
    vstd::set_lib::lemma_len_subset(way.to_set(), ids.to_set());
}

/// The channel that is found under an identifier has it.
proof fn lemma_row_id(rows: Seq<ChannelRow>, id: Seq<char>)
    requires
        row_of(rows, id) is Some,
    ensures
        row_of(rows, id)->0.id@ == id,
    decreases rows.len(),
{
    if rows[0].id@ != id {
        lemma_row_id(rows.skip(1), id);
    }
}

/// Above the top there is nothing.
proof fn lemma_climb_ends(rows: Seq<ChannelRow>, id: Seq<char>, m: nat, n: nat)
    requires
        climb(rows, id, m) is None,
        m <= n,
    ensures
        climb(rows, id, n) is None,
    decreases n,
{
    if m < n {
        lemma_climb_ends(rows, id, m, (n - 1) as nat);
    }
}

/// The greatest depth that the setting allows; 0, which is none or unreadable, allows any.
pub open spec fn max_depth_of(setting: Option<Seq<char>>) -> nat {
    match setting {
        Some(s) => match unsigned_value(s, 4294967295) {
            Some(n) => n,
            None => 0,
        },
        None => 0,
    }
}

/// The greatest depth that the setting allows; 0, which is none or unreadable, allows any.
pub fn read_max_depth(setting: &Option<String>) -> (r: u32)
    ensures
        r == max_depth_of(opt_text(*setting)),
{
    match setting {
        Some(s) => match parse_unsigned(s.as_str(), 4294967295) {
            Some(n) => n as u32,
            None => 0,
        },
        None => 0,
    }
}

/// Why nothing may be placed under the channel, where nothing may.
pub open spec fn parent_refusal(rows: Seq<ChannelRow>, parent: Seq<char>) -> Option<HubRefusal> {
    match row_of(rows, parent) {
        None => Some(hub_refusal(404, "Parent channel not found"@)),
        Some(r) => if r.is_category == 0 {
            Some(hub_refusal(400, "Parent must be a category"@))
        } else {
            None
        },
    }
}

fn check_parent(rows: &Vec<ChannelRow>, parent: &str) -> (r: Result<(), HubError>)
    ensures
        match parent_refusal(rows@, parent@) {
            Some(d) => refused(r, d),
            None => r is Ok,
        },
{
    match find_row(rows, parent) {
        None => Err(refuse(404, "Parent channel not found")),
        Some(i) => if rows[i].is_category == 0 {
            Err(refuse(400, "Parent must be a category"))
        } else {
            Ok(())
        },
    }
}

/// Why the depth may not be, where it may not: too deep, or a category so deep that nothing
/// could stand under it.
pub open spec fn depth_refusal(max_depth: int, depth: int, category: bool) -> Option<HubRefusal> {
    if depth > max_depth - 1 {
        Some(
            hub_refusal(
                400,
                "Maximum channel depth ("@ + decimal(max_depth as nat) + ") would be exceeded"@,
            ),
        )
    } else if category && depth >= max_depth - 1 {
        Some(
            hub_refusal(
                400,
                "A category cannot be at the maximum depth ("@ + decimal(max_depth as nat) + ")"@,
            ),
        )
    } else {
        None
    }
}

fn check_depth(max_depth: u32, depth: u32, category: bool) -> (r: Result<(), HubError>)
    requires
        max_depth > 0,
    ensures
        match depth_refusal(max_depth as int, depth as int, category) {
            Some(d) => refused(r, d),
            None => r is Ok,
        },
{
    let text = u64_text(max_depth as u64);
    if depth > max_depth - 1 {
        Err(
            refuse_text(
                400,
                concat3("Maximum channel depth (", text.as_str(), ") would be exceeded"),
            ),
        )
    } else if category && depth >= max_depth - 1 {
        Err(
            refuse_text(
                400,
                concat3("A category cannot be at the maximum depth (", text.as_str(), ")"),
            ),
        )
    } else {
        Ok(())
    }
}

/// Whether some channel has the name.
pub open spec fn name_taken(rows: Seq<ChannelRow>, name: Seq<char>) -> bool {
    exists|i: int| 0 <= i < rows.len() && (#[trigger] rows[i]).name@ == name
}

fn has_name(rows: &Vec<ChannelRow>, name: &str) -> (r: bool)
    ensures
        r == name_taken(rows@, name@),
{
    let mut i: usize = 0;
    while i < rows.len()
        invariant
            i <= rows@.len(),
            forall|k: int| 0 <= k < i ==> (#[trigger] rows@[k]).name@ != name@,
        decreases rows@.len() - i,
    {
        if same(rows[i].name.as_str(), name) {
            return true;
        }
        i = i + 1;
    }
    false
}

/// Why the channel may not be created, where it may not.
pub open spec fn creation_refusal(
    perms: UserPermissions,
    rows: Seq<ChannelRow>,
    max_depth: nat,
    req: CreateChannelRequest,
) -> Option<HubRefusal> {
    let parent = opt_text(req.parent_id);
    if perms.refusal(MANAGE_CHANNELS@) is Some {
        perms.refusal(MANAGE_CHANNELS@)
    } else if parent is Some && parent_refusal(rows, parent->0) is Some {
        parent_refusal(rows, parent->0)
    } else if max_depth > 0 && depth_under(rows, parent) is None {
        Some(hub_refusal(400, "Channel nesting depth exceeds safety limit"@))
    } else if max_depth > 0 && depth_refusal(
        max_depth as int,
        depth_under(rows, parent)->0 as int,
        req.is_category,
    ) is Some {
        depth_refusal(max_depth as int, depth_under(rows, parent)->0 as int, req.is_category)
    } else if name_taken(rows, req.name@) {
        Some(hub_refusal(409, "Channel '"@ + req.name@ + "' already exists"@))
    } else {
        None
    }
}

/// The place after the last one of the order.
pub open spec fn next_order(rows: Seq<ChannelRow>) -> int
    decreases rows.len(),
{
    if rows.len() == 0 {
        0
    } else {
        let rest = next_order(rows.drop_last());
        if rows.len() == 1 || rows.last().display_order + 1 > rest {
            rows.last().display_order + 1
        } else {
            rest
        }
    }
}

fn next_place(rows: &Vec<ChannelRow>) -> (r: i64)
    requires
        forall|i: int| 0 <= i < rows@.len() ==> (#[trigger] rows@[i]).display_order < i64::MAX,
    ensures
        r == next_order(rows@),
{
    let mut next: i64 = 0;
    let mut i: usize = 0;
    while i < rows.len()
        invariant
            i <= rows@.len(),
            forall|k: int| 0 <= k < rows@.len() ==> (#[trigger] rows@[k]).display_order < i64::MAX,
            next == next_order(rows@.take(i as int)),
        decreases rows@.len() - i,
    {
        assert(rows@.take(i as int + 1).drop_last() =~= rows@.take(i as int));
        let after: i64 = rows[i].display_order + 1;
        if i == 0 || after > next {
            next = after;
        }
        i = i + 1;
    }
    assert(rows@.take(rows@.len() as int) =~= rows@);
    next
}

/// Whether the channel is the one that the request creates.
pub open spec fn created(
    c: ChannelResponse,
    req: CreateChannelRequest,
    id: Seq<char>,
    user: Seq<char>,
    order: int,
    now: i64,
) -> bool {
    &&& c.id@ == id
    &&& c.name@ == req.name@
    &&& c.created_by@ == user
    &&& opt_text(c.parent_id) == opt_text(req.parent_id)
    &&& c.is_category == req.is_category
    &&& c.display_order == order
    &&& opt_text(c.description) == opt_text(req.description)
    &&& c.icon is None
    &&& c.color is None
    &&& c.custom_icon_svg is None
    &&& c.created_at == now
}

/// Creates a channel under the given identifier, at the end of the order: the channel, and the
/// event to publish.
pub fn create_channel(
    user_key: &str,
    perms: &UserPermissions,
    rows: &Vec<ChannelRow>,
    max_depth_setting: &Option<String>,
    req: &CreateChannelRequest,
    id: &str,
    now: i64,
) -> (r: Result<(ChannelResponse, HubEvent), HubError>)
    requires
        forall|i: int| 0 <= i < rows@.len() ==> (#[trigger] rows@[i]).display_order < i64::MAX,
    ensures
        match creation_refusal(*perms, rows@, max_depth_of(opt_text(*max_depth_setting)), *req) {
            Some(d) => refused(r, d),
            None => r matches Ok(x) && created(
                x.0,
                *req,
                id@,
                user_key@,
                next_order(rows@),
                now,
            ) && concerns(x.1, "channel.created"@, user_key@, None, Some(id@)) && two_members(
                x.1.payload,
                "channel_id"@,
                JsonView::Text(id@),
                "name"@,
                JsonView::Text(req.name@),
            ),
        },
{
    match perms.require(MANAGE_CHANNELS) {
        Ok(_) => {},
        Err(e) => return Err(e),
    }
    match &req.parent_id {
        Some(p) => match check_parent(rows, p.as_str()) {
            Ok(_) => {},
            Err(e) => return Err(e),
        },
        None => {},
    }
    let max_depth = read_max_depth(max_depth_setting);
    if max_depth > 0 {
        let depth = match node_depth(rows, &req.parent_id) {
            Ok(d) => d,
            Err(e) => return Err(e),
        };
        match check_depth(max_depth, depth, req.is_category) {
            Ok(_) => {},
            Err(e) => return Err(e),
        }
    }
    if has_name(rows, req.name.as_str()) {
        return Err(already_exists(req.name.as_str()));
    }
    let order = next_place(rows);
    let channel = ChannelResponse {
        id: id.to_owned(),
        name: req.name.clone(),
        created_by: user_key.to_owned(),
        parent_id: req.parent_id.clone(),
        is_category: req.is_category,
        display_order: order,
        description: req.description.clone(),
        icon: None,
        color: None,
        custom_icon_svg: None,
        created_at: now,
    };
    let mut members: Vec<JsonField> = Vec::new();
    members.push(field("channel_id", JsonValue::Text(id.to_owned())));
    members.push(field("name", JsonValue::Text(req.name.clone())));
    let event = HubEvent {
        event_type: "channel.created".to_owned(),
        actor: Some(user_key.to_owned()),
        target: None,
        channel_id: Some(id.to_owned()),
        payload: Payload::Object(members),
    };
    Ok((channel, event))
}

/// The refusal of a name that another channel has, as the storage finds it out.
pub fn already_exists(name: &str) -> (e: HubError)
    ensures
        e@ == hub_refusal(409, "Channel '"@ + name@ + "' already exists"@),
{
    refuse_text(409, concat3("Channel '", name, "' already exists"))
}

/// The refusal of a new name that another channel has, as the storage finds it out.
pub fn name_taken_by_another() -> (e: HubError)
    ensures
        e@ == hub_refusal(409, "A channel with that name already exists"@),
{
    refuse(409, "A channel with that name already exists")
}

/// Whether the request changes what the channel is or where it stands.
pub open spec fn changes_structure(req: UpdateChannelRequest) -> bool {
    req.name is Some || req.description is Some || req.parent_id is Some
}

/// Whether the request changes how the channel looks.
pub open spec fn changes_appearance(req: UpdateChannelRequest) -> bool {
    req.icon is Some || req.color is Some || req.custom_icon_svg is Some
}

/// Why the channel may not be moved under the parent, where it may not.
pub open spec fn move_refusal(
    rows: Seq<ChannelRow>,
    max_depth: nat,
    id: Seq<char>,
    parent: Seq<char>,
) -> Option<HubRefusal> {
    if parent == id {
        Some(hub_refusal(400, "A channel can't be its own parent"@))
    } else if parent_refusal(rows, parent) is Some {
        parent_refusal(rows, parent)
    } else if above(rows, id, parent) {
        Some(hub_refusal(400, "Cannot move a channel into its own descendant"@))
    } else if max_depth > 0 && depth_under(rows, Some(parent)) is None {
        Some(hub_refusal(400, "Channel nesting depth exceeds safety limit"@))
    } else if max_depth > 0 {
        depth_refusal(
            max_depth as int,
            depth_under(rows, Some(parent))->0 as int,
            row_of(rows, id)->0.is_category == 1,
        )
    } else {
        None
    }
}

/// Why nothing of the request is carried out, where nothing is.
pub open spec fn update_refusal(
    perms: UserPermissions,
    rows: Seq<ChannelRow>,
    max_depth: nat,
    id: Seq<char>,
    req: UpdateChannelRequest,
) -> Option<HubRefusal> {
    if row_of(rows, id) is None {
        Some(hub_refusal(404, "Channel not found"@))
    } else if changes_structure(req) && perms.refusal(MANAGE_CHANNELS@) is Some {
        perms.refusal(MANAGE_CHANNELS@)
    } else if changes_appearance(req) && perms.refusal(MANAGE_CHANNEL_ICONS@) is Some {
        perms.refusal(MANAGE_CHANNEL_ICONS@)
    } else {
        match req.parent_id {
            Some(Some(p)) => move_refusal(rows, max_depth, id, p@),
            _ => None,
        }
    }
}

/// Why the channel keeps its name, where it does though another was asked for. What else was
/// asked for is carried out all the same.
pub open spec fn rename_refusal(
    rows: Seq<ChannelRow>,
    id: Seq<char>,
    name: Option<Seq<char>>,
) -> Option<HubRefusal> {
    match name {
        None => None,
        Some(n) => if trimmed(n).len() == 0 {
            Some(hub_refusal(400, "Channel name cannot be empty"@))
        } else if exists|i: int|
            0 <= i < rows.len() && (#[trigger] rows[i]).id@ != id && rows[i].name@ == trimmed(n) {
            Some(hub_refusal(409, "A channel with that name already exists"@))
        } else {
            None
        },
    }
}

/// The value that was asked for, or the one that stood.
pub open spec fn tri_state(asked: Option<Option<String>>, stood: Option<String>) -> Option<
    Seq<char>,
> {
    match asked {
        Some(v) => opt_text(v),
        None => opt_text(stood),
    }
}

/// Whether the channel is the one of before with the request carried out.
pub open spec fn updated(
    new: ChannelRow,
    before: ChannelRow,
    req: UpdateChannelRequest,
    renamed: bool,
) -> bool {
    &&& new.id@ == before.id@
    &&& new.name@ == if renamed && req.name is Some {
        trimmed(req.name->0@)
    } else {
        before.name@
    }
    &&& new.created_by@ == before.created_by@
    &&& opt_text(new.parent_id) == tri_state(req.parent_id, before.parent_id)
    &&& new.is_category == before.is_category
    &&& new.display_order == before.display_order
    &&& opt_text(new.description) == match req.description {
        Some(d) => Some(d@),
        None => opt_text(before.description),
    }
    &&& opt_text(new.icon) == tri_state(req.icon, before.icon)
    &&& opt_text(new.color) == tri_state(req.color, before.color)
    &&& opt_text(new.custom_icon_svg) == tri_state(req.custom_icon_svg, before.custom_icon_svg)
    &&& new.created_at == before.created_at
}

fn pick(asked: &Option<Option<String>>, stood: &Option<String>) -> (r: Option<String>)
    ensures
        opt_text(r) == tri_state(*asked, *stood),
{
    match asked {
        Some(v) => v.clone(),
        None => stood.clone(),
    }
}

fn check_move(
    rows: &Vec<ChannelRow>,
    max_depth_setting: &Option<String>,
    id: &str,
    parent: &String,
) -> (r: Result<(), HubError>)
    requires
        row_of(rows@, id@) is Some,
    ensures
        match move_refusal(rows@, max_depth_of(opt_text(*max_depth_setting)), id@, parent@) {
            Some(d) => refused(r, d),
            None => r is Ok,
        },
{
    if same(parent.as_str(), id) {
        return Err(refuse(400, "A channel can't be its own parent"));
    }
    match check_parent(rows, parent.as_str()) {
        Ok(_) => {},
        Err(e) => return Err(e),
    }
    if is_ancestor(rows, id, parent.as_str()) {
        return Err(refuse(400, "Cannot move a channel into its own descendant"));
    }
    let max_depth = read_max_depth(max_depth_setting);
    if max_depth > 0 {
        let under: Option<String> = Some(parent.clone());
        let depth = match node_depth(rows, &under) {
            Ok(d) => d,
            Err(e) => return Err(e),
        };
        let category = match find_row(rows, id) {
            Some(i) => rows[i].is_category == 1,
            None => false,
        };
        return check_depth(max_depth, depth, category);
    }
    Ok(())
}

fn check_rename(rows: &Vec<ChannelRow>, id: &str, name: &Option<String>) -> (r: Result<
    Option<String>,
    HubError,
>)
    ensures
        match rename_refusal(rows@, id@, opt_text(*name)) {
            Some(d) => refused(r, d),
            None => r matches Ok(n) && opt_text(n) == match name {
                Some(s) => Some(trimmed(s@)),
                None => None::<Seq<char>>,
            },
        },
{
    match name {
        None => Ok(None),
        Some(n) => {
            let t = trim(n.as_str());
            if t.as_str().is_empty() {
                return Err(refuse(400, "Channel name cannot be empty"));
            }
            let mut i: usize = 0;
            while i < rows.len()
                invariant
                    i <= rows@.len(),
                    opt_text(*name) == Some(n@),
                    t@ == trimmed(n@),
                    t@.len() > 0,
                    forall|k: int|
                        0 <= k < i ==> (#[trigger] rows@[k]).id@ == id@ || rows@[k].name@ != t@,
                decreases rows@.len() - i,
            {
                if !same(rows[i].id.as_str(), id) && same(rows[i].name.as_str(), t.as_str()) {
                    return Err(name_taken_by_another());
                }
                i = i + 1;
            }
            Ok(Some(t))
        },
    }
}

/// Changes a channel. Everything but the name is changed first; where the name then cannot be
/// had, the rest stays changed and the refusal of the name is the answer.
pub fn update_channel(
    perms: &UserPermissions,
    rows: &mut Vec<ChannelRow>,
    max_depth_setting: &Option<String>,
    channel_id: &str,
    req: &UpdateChannelRequest,
) -> (r: Result<u16, HubError>)
    ensures
        final(rows)@.len() == old(rows)@.len(),
        match update_refusal(
            *perms,
            old(rows)@,
            max_depth_of(opt_text(*max_depth_setting)),
            channel_id@,
            *req,
        ) {
            Some(d) => refused(r, d) && final(rows)@ == old(rows)@,
            None => {
                let fault = rename_refusal(old(rows)@, channel_id@, opt_text(req.name));
                &&& match fault {
                    Some(d) => refused(r, d),
                    None => r == Ok::<u16, HubError>(200),
                }
                &&& forall|i: int|
                    0 <= i < old(rows)@.len() ==> if old(rows)@[i].id@ == channel_id@ {
                        updated(#[trigger] final(rows)@[i], old(rows)@[i], *req, fault is None)
                    } else {
                        final(rows)@[i] == old(rows)@[i]
                    }
                &&& forall|x: Seq<char>| #[trigger]
                    parent_of(final(rows)@, x) == if x == channel_id@ && req.parent_id is Some {
                        opt_text(req.parent_id->0)
                    } else {
                        parent_of(old(rows)@, x)
                    }
            },
        },
{
    if find_row(rows, channel_id).is_none() {
        return Err(refuse(404, "Channel not found"));
    }
    if req.name.is_some() || req.description.is_some() || req.parent_id.is_some() {
        match perms.require(MANAGE_CHANNELS) {
            Ok(_) => {},
            Err(e) => return Err(e),
        }
    }
    if req.icon.is_some() || req.color.is_some() || req.custom_icon_svg.is_some() {
        match perms.require(MANAGE_CHANNEL_ICONS) {
            Ok(_) => {},
            Err(e) => return Err(e),
        }
    }
    match &req.parent_id {
        Some(Some(p)) => match check_move(rows, max_depth_setting, channel_id, p) {
            Ok(_) => {},
            Err(e) => return Err(e),
        },
        _ => {},
    }
    let named = check_rename(rows, channel_id, &req.name);
    let ghost fault = rename_refusal(rows@, channel_id@, opt_text(req.name));
    let new_name: Option<String> = match &named {
        Ok(n) => n.clone(),
        Err(_) => None,
    };
    let ghost before = rows@;
    let mut i: usize = 0;
    while i < rows.len()
        invariant
            i <= rows@.len(),
            rows@.len() == before.len(),
            fault == rename_refusal(before, channel_id@, opt_text(req.name)),
            opt_text(new_name) == if fault is None && req.name is Some {
                Some(trimmed(req.name->0@))
            } else {
                None::<Seq<char>>
            },
            forall|k: int| i <= k < before.len() ==> rows@[k] == before[k],
            forall|k: int|
                0 <= k < i ==> if before[k].id@ == channel_id@ {
                    updated(#[trigger] rows@[k], before[k], *req, fault is None)
                } else {
                    rows@[k] == before[k]
                },
        decreases rows@.len() - i,
    {
        if same(rows[i].id.as_str(), channel_id) {
            let description: Option<String> = match &req.description {
                Some(d) => Some(d.clone()),
                None => rows[i].description.clone(),
            };
            let parent = pick(&req.parent_id, &rows[i].parent_id);
            let icon = pick(&req.icon, &rows[i].icon);
            let color = pick(&req.color, &rows[i].color);
            let svg = pick(&req.custom_icon_svg, &rows[i].custom_icon_svg);
            rows[i].description = description;
            rows[i].parent_id = parent;
            rows[i].icon = icon;
            rows[i].color = color;
            rows[i].custom_icon_svg = svg;
            match &new_name {
                Some(n) => {
                    rows[i].name = n.clone();
                },
                None => {},
            }
        }
        i = i + 1;
    }
    proof {
        assert forall|x: Seq<char>| #[trigger] parent_of(rows@, x) == if x == channel_id@
            && req.parent_id is Some {
            opt_text(req.parent_id->0)
        } else {
            parent_of(before, x)
        } by {
            lemma_parents_after(before, rows@, channel_id@, *req, fault is None, x);
        }
    }
    match named {
        Ok(_) => Ok(200),
        Err(e) => Err(e),
    }
}

/// Where a channel stands after a request was carried out.
proof fn lemma_parents_after(
    before: Seq<ChannelRow>,
    after: Seq<ChannelRow>,
    id: Seq<char>,
    req: UpdateChannelRequest,
    renamed: bool,
    x: Seq<char>,
)
    requires
        after.len() == before.len(),
        forall|i: int|
            0 <= i < before.len() ==> if before[i].id@ == id {
                updated(#[trigger] after[i], before[i], req, renamed)
            } else {
                after[i] == before[i]
            },
    ensures
        row_of(after, x) is Some <==> row_of(before, x) is Some,
        row_of(before, x) is Some ==> parent_of(after, x) == if x == id && req.parent_id is Some {
            opt_text(req.parent_id->0)
        } else {
            parent_of(before, x)
        },
        row_of(before, x) is None ==> parent_of(after, x) is None,
    decreases before.len(),
{
    if before.len() > 0 {
        assert(after[0].id@ == before[0].id@);
        if before[0].id@ != x {
            let b = before.skip(1);
            let a = after.skip(1);
            assert forall|i: int| 0 <= i < b.len() implies if b[i].id@ == id {
                updated(#[trigger] a[i], b[i], req, renamed)
            } else {
                a[i] == b[i]
            } by {
                assert(a[i] == after[i + 1] && b[i] == before[i + 1]);
            }
            lemma_parents_after(b, a, id, req, renamed, x);
        }
    }
}

/// Climbing goes on where it was left.
proof fn lemma_climb_further(rows: Seq<ChannelRow>, id: Seq<char>, m: nat, n: nat)
    requires
        climb(rows, id, m) is Some,
    ensures
        climb(rows, id, m + n) == climb(rows, climb(rows, id, m)->0, n),
    decreases n,
{
    if n > 0 {
        lemma_climb_further(rows, id, m, (n - 1) as nat);
        assert((m + n - 1) as nat == m + (n - 1) as nat);
    }
}

/// Whether the channels stand as before, but for one that stands under the parent.
pub open spec fn only_moves(
    before: Seq<ChannelRow>,
    after: Seq<ChannelRow>,
    id: Seq<char>,
    parent: Seq<char>,
) -> bool {
    forall|x: Seq<char>| #[trigger]
        parent_of(after, x) == if x == id {
            Some(parent)
        } else {
            parent_of(before, x)
        }
}

/// Moving a channel under another that passed the check leaves no channel above itself.
pub proof fn move_keeps_the_tree(
    before: Seq<ChannelRow>,
    after: Seq<ChannelRow>,
    id: Seq<char>,
    parent: Seq<char>,
    max_depth: nat,
)
    requires
        acyclic(before),
        move_refusal(before, max_depth, id, parent) is None,
        only_moves(before, after, id, parent),
    ensures
        acyclic(after),
{
    assert forall|n: nat| #[trigger] climb(before, parent, n) != Some(id) by {
        if n == 0 {
            assert(climb(before, parent, 0) == Some(parent));
        }
    }
    lemma_no_cycle(before, after, id, parent);
}

/// Creating a channel leaves no channel above itself: nothing lies under it yet.
pub proof fn creation_keeps_the_tree(
    before: Seq<ChannelRow>,
    after: Seq<ChannelRow>,
    id: Seq<char>,
    parent: Seq<char>,
)
    requires
        acyclic(before),
        parent != id,
        !has_children(before, id),
        only_moves(before, after, id, parent),
    ensures
        acyclic(after),
{
    assert forall|n: nat| #[trigger] climb(before, parent, n) != Some(id) by {
        if n == 0 {
            assert(climb(before, parent, 0) == Some(parent));
        } else if climb(before, parent, n) == Some(id) {
            let below = climb(before, parent, (n - 1) as nat)->0;
            assert(parent_of(before, below) == Some(id));
            lemma_row_stands(before, below);
        }
    }
    lemma_no_cycle(before, after, id, parent);
}

/// Moving a channel to the top, or deleting one, leaves no channel above itself: no channel
/// stands under another one than before.
pub proof fn moving_up_keeps_the_tree(before: Seq<ChannelRow>, after: Seq<ChannelRow>)
    requires
        acyclic(before),
        forall|x: Seq<char>|
            (#[trigger] parent_of(after, x)) is None || parent_of(after, x) == parent_of(before, x),
    ensures
        acyclic(after),
{
    assert forall|x: Seq<char>, n: nat| n > 0 implies #[trigger] climb(after, x, n) != Some(x) by {
        if climb(after, x, n) is Some {
            lemma_climb_kept(before, after, x, n);
        }
    }
}

/// Where no channel stands under another one than before, a way up is the old one.
proof fn lemma_climb_kept(before: Seq<ChannelRow>, after: Seq<ChannelRow>, x: Seq<char>, n: nat)
    requires
        forall|y: Seq<char>|
            (#[trigger] parent_of(after, y)) is None || parent_of(after, y) == parent_of(before, y),
        climb(after, x, n) is Some,
    ensures
        climb(before, x, n) == climb(after, x, n),
    decreases n,
{
    if n > 0 {
        lemma_climb_kept(before, after, x, (n - 1) as nat);
    }
}

/// The channel that is found under an identifier is one of the rows.
proof fn lemma_row_stands(rows: Seq<ChannelRow>, id: Seq<char>)
    requires
        row_of(rows, id) is Some,
    ensures
        exists|i: int| 0 <= i < rows.len() && #[trigger] rows[i] == row_of(rows, id)->0,
    decreases rows.len(),
{
    if rows[0].id@ == id {
        assert(rows[0] == row_of(rows, id)->0);
    } else {
        lemma_row_stands(rows.skip(1), id);
        let i = choose|i: int|
            0 <= i < rows.skip(1).len() && #[trigger] rows.skip(1)[i] == row_of(rows.skip(1), id)->0;
        assert(rows[i + 1] == row_of(rows, id)->0);
    }
}

/// A channel that does not lie above the parent can stand under it.
proof fn lemma_no_cycle(
    before: Seq<ChannelRow>,
    after: Seq<ChannelRow>,
    id: Seq<char>,
    parent: Seq<char>,
)
    requires
        acyclic(before),
        forall|n: nat| #[trigger] climb(before, parent, n) != Some(id),
        only_moves(before, after, id, parent),
    ensures
        acyclic(after),
{
    assert forall|n: nat| #[trigger] climb(after, parent, n) == climb(before, parent, n) by {
        lemma_climb_unchanged(before, after, id, parent, parent, n);
    }
    assert forall|n: nat| n > 0 implies #[trigger] climb(after, id, n) != Some(id) by {
        assert(climb(after, id, 0) == Some(id));
        assert(climb(after, id, 1) == Some(parent)) by {
            assert(climb(after, id, 1) == parent_of(after, id));
        }
        lemma_climb_further(after, id, 1, (n - 1) as nat);
        assert(1 + (n - 1) as nat == n);
        assert(climb(before, parent, (n - 1) as nat) != Some(id));
        assert(climb(after, parent, (n - 1) as nat) == climb(before, parent, (n - 1) as nat));
    }
    assert forall|x: Seq<char>, n: nat| n > 0 implies #[trigger] climb(after, x, n) != Some(x) by {
        if climb(after, x, n) == Some(x) {
            if exists|j: nat| j < n && #[trigger] climb(after, x, j) == Some(id) {
                let j = choose|j: nat| j < n && #[trigger] climb(after, x, j) == Some(id);
                // From the moved channel the way leads back to it: n levels up, over x.
                lemma_climb_further(after, x, j, (n - j) as nat);
                assert(j + (n - j) as nat == n);
                assert(climb(after, id, (n - j) as nat) == Some(x));
                lemma_climb_further(after, id, (n - j) as nat, j);
                assert((n - j) as nat + j == n);
                assert(climb(after, id, n) == Some(id));
            } else {
                lemma_climb_same(before, after, id, parent, x, n);
                assert(climb(before, x, n) == Some(x));
            }
        }
    }
}

/// A way up that never meets the moved channel is the old one.
proof fn lemma_climb_same(
    before: Seq<ChannelRow>,
    after: Seq<ChannelRow>,
    id: Seq<char>,
    parent: Seq<char>,
    x: Seq<char>,
    n: nat,
)
    requires
        only_moves(before, after, id, parent),
        forall|j: nat| j < n ==> #[trigger] climb(after, x, j) != Some(id),
    ensures
        climb(after, x, n) == climb(before, x, n),
    decreases n,
{
    if n > 0 {
        lemma_climb_same(before, after, id, parent, x, (n - 1) as nat);
        assert(climb(after, x, (n - 1) as nat) != Some(id));
    }
}

/// A way up from the new parent is the old one, since the moved channel lay on none of it.
proof fn lemma_climb_unchanged(
    before: Seq<ChannelRow>,
    after: Seq<ChannelRow>,
    id: Seq<char>,
    parent: Seq<char>,
    x: Seq<char>,
    n: nat,
)
    requires
        only_moves(before, after, id, parent),
        forall|j: nat| #[trigger] climb(before, x, j) != Some(id),
    ensures
        climb(after, x, n) == climb(before, x, n),
    decreases n,
{
    if n > 0 {
        lemma_climb_unchanged(before, after, id, parent, x, (n - 1) as nat);
        assert(climb(before, x, (n - 1) as nat) != Some(id));
    }
}

/// Where a greatest depth is set, a channel that was moved stands within it: the levels above
/// it are fewer than the depth, and a category leaves room for one more.
pub proof fn a_depth_limit_bounds_the_tree(
    before: Seq<ChannelRow>,
    after: Seq<ChannelRow>,
    id: Seq<char>,
    parent: Seq<char>,
    max_depth: nat,
)
    requires
        max_depth > 0,
        move_refusal(before, max_depth, id, parent) is None,
        only_moves(before, after, id, parent),
    ensures
        levels(after, id, 50) matches Some(n) && n < max_depth && (row_of(
            before,
            id,
        )->0.is_category == 1 ==> n + 1 < max_depth),
{
    assert forall|n: nat| #[trigger] climb(before, parent, n) != Some(id) by {
        if n == 0 {
            assert(climb(before, parent, 0) == Some(parent));
        }
    }
    lemma_levels_kept(before, after, id, parent, parent, 49);
    assert(parent_of(after, id) == Some(parent));
}

/// The levels above a channel stay where the moved channel does not lie above it.
proof fn lemma_levels_kept(
    before: Seq<ChannelRow>,
    after: Seq<ChannelRow>,
    id: Seq<char>,
    parent: Seq<char>,
    x: Seq<char>,
    most: nat,
)
    requires
        only_moves(before, after, id, parent),
        forall|n: nat| #[trigger] climb(before, x, n) != Some(id),
    ensures
        levels(after, x, most) == levels(before, x, most),
    decreases most,
{
    assert(climb(before, x, 0) == Some(x));
    match parent_of(before, x) {
        None => {},
        Some(p) => {
            if most > 0 {
                assert(climb(before, x, 1) == Some(p)) by {
                    assert(climb(before, x, 0) == Some(x));
                }
                assert forall|n: nat| #[trigger] climb(before, p, n) != Some(id) by {
                    lemma_climb_further(before, x, 1, n);
                    assert(climb(before, x, 1 + n) != Some(id));
                }
                lemma_levels_kept(before, after, id, parent, p, (most - 1) as nat);
            }
        },
    }
}

/// The place that the list gives to a channel: that of its last mention.
pub open spec fn order_in(ids: Seq<Seq<char>>, id: Seq<char>) -> Option<int>
    decreases ids.len(),
{
    if ids.len() == 0 {
        None
    } else if ids.last() == id {
        Some(ids.len() - 1)
    } else {
        order_in(ids.drop_last(), id)
    }
}

/// The channel at its new place in the order.
pub open spec fn reordered(r: ChannelRow, ids: Seq<Seq<char>>) -> ChannelRow {
    match order_in(ids, r.id@) {
        Some(n) => ChannelRow { display_order: n as i64, ..r },
        None => r,
    }
}

/// Puts the channels into the given order. Channels that are not mentioned keep their place.
pub fn reorder_channels(
    perms: &UserPermissions,
    rows: &mut Vec<ChannelRow>,
    req: &ReorderRequest,
) -> (r: Result<u16, HubError>)
    requires
        req.channel_ids@.len() <= i64::MAX,
    ensures
        match perms.refusal(MANAGE_CHANNELS@) {
            Some(d) => refused(r, d) && final(rows)@ == old(rows)@,
            None => {
                &&& r == Ok::<u16, HubError>(200)
                &&& final(rows)@.len() == old(rows)@.len()
                &&& forall|i: int|
                    0 <= i < old(rows)@.len() ==> #[trigger] final(rows)@[i] == reordered(
                        old(rows)@[i],
                        texts(req.channel_ids@),
                    )
            },
        },
{
    match perms.require(MANAGE_CHANNELS) {
        Ok(_) => {},
        Err(e) => return Err(e),
    }
    let ghost before = rows@;
    let ghost ids = texts(req.channel_ids@);
    let mut n: usize = 0;
    assert(ids.take(0) =~= Seq::empty());
    while n < req.channel_ids.len()
        invariant
            n <= req.channel_ids@.len(),
            req.channel_ids@.len() <= i64::MAX,
            ids == texts(req.channel_ids@),
            rows@.len() == before.len(),
            forall|k: int|
                0 <= k < before.len() ==> #[trigger] rows@[k] == reordered(
                    before[k],
                    ids.take(n as int),
                ),
        decreases req.channel_ids@.len() - n,
    {
        let id = req.channel_ids[n].as_str();
        assert(ids.take(n as int + 1).drop_last() =~= ids.take(n as int));
        assert(ids.take(n as int + 1).last() == id@);
        let ghost mid = rows@;
        let mut i: usize = 0;
        while i < rows.len()
            invariant
                i <= rows@.len(),
                n < req.channel_ids@.len() <= i64::MAX,
                rows@.len() == before.len(),
                mid.len() == before.len(),
                ids.take(n as int + 1).drop_last() == ids.take(n as int),
                ids.take(n as int + 1).last() == id@,
                ids.take(n as int + 1).len() == n + 1,
                forall|k: int|
                    0 <= k < before.len() ==> #[trigger] mid[k] == reordered(
                        before[k],
                        ids.take(n as int),
                    ),
                forall|k: int| i <= k < before.len() ==> rows@[k] == mid[k],
                forall|k: int|
                    0 <= k < i ==> #[trigger] rows@[k] == reordered(
                        before[k],
                        ids.take(n as int + 1),
                    ),
            decreases rows@.len() - i,
        {
            assert(rows@[i as int] == mid[i as int]);
            assert(rows@[i as int].id@ == before[i as int].id@);
            if same(rows[i].id.as_str(), id) {
                rows[i].display_order = n as i64;
            }
            i = i + 1;
        }
        n = n + 1;
    }
    assert(ids.take(ids.len() as int) =~= ids);
    Ok(200)
}

/// Whether some channel lies directly under the channel.
pub open spec fn has_children(rows: Seq<ChannelRow>, id: Seq<char>) -> bool {
    exists|i: int| 0 <= i < rows.len() && opt_text((#[trigger] rows[i]).parent_id) == Some(id)
}

/// Why the channel may not be deleted, where it may not.
pub open spec fn deletion_refusal(
    perms: UserPermissions,
    rows: Seq<ChannelRow>,
    id: Seq<char>,
) -> Option<HubRefusal> {
    if perms.refusal(MANAGE_CHANNELS@) is Some {
        perms.refusal(MANAGE_CHANNELS@)
    } else if row_of(rows, id) is None {
        Some(hub_refusal(404, "Channel not found"@))
    } else if has_children(rows, id) {
        Some(hub_refusal(409, "Cannot delete: category still has channels"@))
    } else {
        None
    }
}

impl Identified for ChannelRow {
    open spec fn row_id(&self) -> Seq<char> {
        self.id@
    }

    fn id_text(&self) -> (r: &str) {
        self.id.as_str()
    }
}

/// A channel that was deleted: the one whose messages, bans, settings and places in alliances
/// go with it, and the event to publish.
pub struct DeletedChannel {
    pub data_of: String,
    pub event: HubEvent,
}

/// Deletes a channel under which no other lies.
pub fn delete_channel(
    user_key: &str,
    perms: &UserPermissions,
    rows: &mut Vec<ChannelRow>,
    channel_id: &str,
) -> (r: Result<DeletedChannel, HubError>)
    ensures
        match deletion_refusal(*perms, old(rows)@, channel_id@) {
            Some(d) => refused(r, d) && final(rows)@ == old(rows)@,
            None => {
                &&& final(rows)@ == old(rows)@.filter(is_not(channel_id@))
                &&& r matches Ok(x) && x.data_of@ == channel_id@ && concerns(
                    x.event,
                    "channel.deleted"@,
                    user_key@,
                    None,
                    Some(channel_id@),
                ) && one_member(x.event.payload, "channel_id"@, JsonView::Text(channel_id@))
            },
        },
{
    match perms.require(MANAGE_CHANNELS) {
        Ok(_) => {},
        Err(e) => return Err(e),
    }
    if find_row(rows, channel_id).is_none() {
        return Err(refuse(404, "Channel not found"));
    }
    if any_child(rows, channel_id) {
        return Err(refuse(409, "Cannot delete: category still has channels"));
    }
    remove_id(rows, channel_id);
    let mut members: Vec<JsonField> = Vec::new();
    members.push(field("channel_id", JsonValue::Text(channel_id.to_owned())));
    let event = HubEvent {
        event_type: "channel.deleted".to_owned(),
        actor: Some(user_key.to_owned()),
        target: None,
        channel_id: Some(channel_id.to_owned()),
        payload: Payload::Object(members),
    };
    Ok(DeletedChannel { data_of: channel_id.to_owned(), event })
}

fn any_child(rows: &Vec<ChannelRow>, id: &str) -> (r: bool)
    ensures
        r == has_children(rows@, id@),
{
    let mut i: usize = 0;
    while i < rows.len()
        invariant
            i <= rows@.len(),
            forall|k: int| 0 <= k < i ==> opt_text((#[trigger] rows@[k]).parent_id) != Some(id@),
        decreases rows@.len() - i,
    {
        let child = match &rows[i].parent_id {
            Some(p) => same(p.as_str(), id),
            None => false,
        };
        if child {
            return true;
        }
        i = i + 1;
    }
    false
}

/// Whether every channel that lies under another one lies under one that is there.
pub open spec fn no_orphans(rows: Seq<ChannelRow>) -> bool {
    forall|i: int|
        0 <= i < rows.len() && (#[trigger] rows[i]).parent_id is Some ==> has_id(
            rows,
            rows[i].parent_id->0@,
        )
}

/// Deleting a channel that may be deleted takes it away and leaves no channel without the one
/// above it.
pub proof fn deletion_leaves_no_orphans(
    perms: UserPermissions,
    rows: Seq<ChannelRow>,
    id: Seq<char>,
)
    requires
        deletion_refusal(perms, rows, id) is None,
        no_orphans(rows),
    ensures
        !has_id(rows.filter(is_not(id)), id),
        no_orphans(rows.filter(is_not(id))),
{
    let p = is_not::<ChannelRow>(id);
    let after = rows.filter(p);
    removed_is_gone(rows, id);
    assert forall|i: int| 0 <= i < after.len() && (#[trigger] after[i]).parent_id is Some implies has_id(
        after,
        after[i].parent_id->0@,
    ) by {
        let parent = after[i].parent_id->0@;
        rows.lemma_filter_contains_rev(p, after[i]);
        let k = choose|k: int| 0 <= k < rows.len() && rows[k] == after[i];
        assert(opt_text(rows[k].parent_id) == Some(parent));
        assert(parent != id);
        assert(has_id(rows, parent));
        let m = choose|m: int| 0 <= m < rows.len() && (#[trigger] rows[m]).row_id() == parent;
        assert(p(rows[m]));
        rows.lemma_filter_contains(p, m);
        let n = choose|n: int| 0 <= n < after.len() && after[n] == rows[m];
        assert(after[n].row_id() == parent);
    }
}

/// Whether the channel is shown as it is stored.
pub open spec fn channel_shows(c: ChannelResponse, r: ChannelRow) -> bool {
    &&& c.id == r.id
    &&& c.name == r.name
    &&& c.created_by == r.created_by
    &&& c.parent_id == r.parent_id
    &&& c.is_category == (r.is_category != 0)
    &&& c.display_order == r.display_order
    &&& c.description == r.description
    &&& c.icon == r.icon
    &&& c.color == r.color
    &&& c.custom_icon_svg == r.custom_icon_svg
    &&& c.created_at == r.created_at
}

/// The channels, in the order of the rows.
pub fn list_channels(rows: Vec<ChannelRow>) -> (r: Vec<ChannelResponse>)
    ensures
        r@.len() == rows@.len(),
        forall|i: int| 0 <= i < rows@.len() ==> channel_shows(#[trigger] r@[i], rows@[i]),
{
    let mut out: Vec<ChannelResponse> = Vec::new();
    let mut i: usize = 0;
    while i < rows.len()
        invariant
            i <= rows@.len(),
            out@.len() == i,
            forall|k: int| 0 <= k < i ==> channel_shows(#[trigger] out@[k], rows@[k]),
        decreases rows@.len() - i,
    {
        let c = &rows[i];
        out.push(
            ChannelResponse {
                id: c.id.clone(),
                name: c.name.clone(),
                created_by: c.created_by.clone(),
                parent_id: c.parent_id.clone(),
                is_category: c.is_category != 0,
                display_order: c.display_order,
                description: c.description.clone(),
                icon: c.icon.clone(),
                color: c.color.clone(),
                custom_icon_svg: c.custom_icon_svg.clone(),
                created_at: c.created_at,
            },
        );
        i = i + 1;
    }
    out
}

/// Whether a channel with the identifier is there, and it is a category.
pub open spec fn is_category_there(rows: Seq<ChannelRow>, id: Seq<char>) -> bool {
    exists|i: int|
        0 <= i < rows.len() && (#[trigger] rows[i]).id@ == id && rows[i].is_category != 0
}

/// Whether no two channels have the same identifier.
pub open spec fn each_once(rows: Seq<ChannelRow>) -> bool {
    forall|i: int, j: int|
        0 <= i < j < rows.len() ==> (#[trigger] rows[i]).id@ != (#[trigger] rows[j]).id@
}

/// The channel that is found is the one with the identifier; none is found where none has it.
proof fn lemma_found(rows: Seq<ChannelRow>, id: Seq<char>)
    ensures
        match row_of(rows, id) {
            Some(r) => exists|i: int|
                0 <= i < rows.len() && #[trigger] rows[i] == r && r.id@ == id,
            None => forall|i: int| 0 <= i < rows.len() ==> (#[trigger] rows[i]).id@ != id,
        },
    decreases rows.len(),
{
    if rows.len() > 0 && rows[0].id@ != id {
        lemma_found(rows.skip(1), id);
        match row_of(rows.skip(1), id) {
            Some(r) => {
                let i: int = choose|i: int|
                    0 <= i < rows.skip(1).len() && #[trigger] rows.skip(1)[i] == r && r.id@ == id;
                assert(rows[i + 1] == r);
            },
            None => {
                assert forall|i: int| 0 <= i < rows.len() implies (#[trigger] rows[i]).id@ != id by {
                    if i > 0 {
                        assert(rows.skip(1)[i - 1] == rows[i]);
                    }
                }
            },
        }
    }
}

/// Where identifiers stand once, the channel that is found is the row that has it.
proof fn lemma_found_at(rows: Seq<ChannelRow>, i: int)
    requires
        each_once(rows),
        0 <= i < rows.len(),
    ensures
        row_of(rows, rows[i].id@) == Some(rows[i]),
{
    lemma_found(rows, rows[i].id@);
    let r = row_of(rows, rows[i].id@)->0;
    let j: int = choose|j: int|
        0 <= j < rows.len() && #[trigger] rows[j] == r && r.id@ == rows[i].id@;
    if i < j {
        assert(rows[i].id@ != rows[j].id@);
    } else if j < i {
        assert(rows[j].id@ != rows[i].id@);
    }
}

/// Without a greatest depth, a channel is created by those who manage channels, at the top or
/// under a category that is there, where no channel has its name; as it was asked for, at the end
/// of the order, and the bots are told.
pub proof fn a_channel_is_created_as_asked(
    user: &str,
    perms: &UserPermissions,
    rows: &Vec<ChannelRow>,
    setting: &Option<String>,
    req: &CreateChannelRequest,
    id: &str,
    now: i64,
    r: Result<(ChannelResponse, HubEvent), HubError>,
    i: int,
)
    requires
        forall|k: int| 0 <= k < rows@.len() ==> (#[trigger] rows@[k]).display_order < i64::MAX,
        call_ensures(create_channel, (user, perms, rows, setting, req, id, now), r),
        each_once(rows@),
    ensures
        setting is None ==> (r is Ok <==> allows(*perms, "manage_channels"@) && (req.parent_id
            is Some ==> is_category_there(rows@, req.parent_id->0@)) && forall|k: int|
            0 <= k < rows@.len() ==> (#[trigger] rows@[k]).name@ != req.name@),
        r is Ok ==> allows(*perms, "manage_channels"@) && (req.parent_id is Some
            ==> is_category_there(rows@, req.parent_id->0@)),
        r is Ok && 0 <= i < rows@.len() ==> rows@[i].name@ != req.name@
            && r->Ok_0.0.display_order > rows@[i].display_order,
        !allows(*perms, "manage_channels"@) ==> r->Err_0.status == 403,
        r matches Ok(x) ==> x.0.id@ == id@ && x.0.name@ == req.name@ && x.0.created_by@ == user@
            && opt_text(x.0.parent_id) == opt_text(req.parent_id) && x.0.is_category
            == req.is_category && opt_text(x.0.description) == opt_text(req.description)
            && x.0.created_at == now && x.0.icon is None && x.0.color is None
            && x.0.custom_icon_svg is None,
        r matches Ok(x) ==> x.1.event_type@ == "channel.created"@ && opt_text(x.1.actor) == Some(
            user@,
        ) && opt_text(x.1.channel_id) == Some(id@),
        r is Ok && rows@.len() == 0 ==> r->Ok_0.0.display_order == 0,
        r is Ok && rows@.len() > 0 ==> exists|k: int|
            0 <= k < rows@.len() && (#[trigger] rows@[k]).display_order + 1
                == r->Ok_0.0.display_order,
{
    lemma_may_is_allowed(*perms, MANAGE_CHANNELS@);
    if req.parent_id is Some {
        lemma_parent_is_category(rows@, req.parent_id->0@);
    }
    if 0 <= i < rows@.len() {
        lemma_next_is_last(rows@, i);
    }
    if rows@.len() > 0 {
        let k: int = lemma_next_follows(rows@);
        assert(rows@[k].display_order + 1 == next_order(rows@));
    }
}

/// The place at the end of the order is the next after that of some channel.
proof fn lemma_next_follows(rows: Seq<ChannelRow>) -> (k: int)
    requires
        rows.len() > 0,
    ensures
        0 <= k < rows.len(),
        rows[k].display_order + 1 == next_order(rows),
    decreases rows.len(),
{
    if rows.len() == 1 || rows.last().display_order + 1 > next_order(rows.drop_last()) {
        rows.len() - 1
    } else {
        let k: int = lemma_next_follows(rows.drop_last());
        assert(rows.drop_last()[k] == rows[k]);
        k
    }
}

proof fn lemma_parent_is_category(rows: Seq<ChannelRow>, parent: Seq<char>)
    requires
        each_once(rows),
    ensures
        parent_refusal(rows, parent) is None <==> is_category_there(rows, parent),
{
    lemma_found(rows, parent);
    if is_category_there(rows, parent) {
        let i: int = choose|i: int|
            0 <= i < rows.len() && (#[trigger] rows[i]).id@ == parent && rows[i].is_category != 0;
        lemma_found_at(rows, i);
    }
}

/// The place at the end of the order comes after every other.
proof fn lemma_next_is_last(rows: Seq<ChannelRow>, i: int)
    requires
        0 <= i < rows.len(),
    ensures
        next_order(rows) > rows[i].display_order,
    decreases rows.len(),
{
    if i < rows.len() - 1 {
        lemma_next_is_last(rows.drop_last(), i);
        assert(rows.drop_last()[i] == rows[i]);
    }
}

/// At the top a channel lies at depth nothing, and under another one level deeper than it.
pub proof fn depth_counts_the_levels(
    rows: &Vec<ChannelRow>,
    parent: &Option<String>,
    r: Result<u32, HubError>,
    above_it: &Option<String>,
    s: Result<u32, HubError>,
    i: int,
)
    requires
        each_once(rows@),
        call_ensures(node_depth, (rows, parent), r),
        0 <= i < rows@.len(),
        parent is Some ==> rows@[i].id@ == parent->0@ && opt_text(*above_it) == opt_text(
            rows@[i].parent_id,
        ),
        call_ensures(node_depth, (rows, above_it), s),
    ensures
        parent is None ==> r is Ok && r->Ok_0 == 0,
        parent is Some && r is Ok ==> s is Ok && r->Ok_0 == s->Ok_0 + 1,
        parent is Some && s is Ok && s->Ok_0 < 50 ==> r is Ok,
        r is Err ==> r->Err_0.status == 400,
{
    if parent is Some {
        lemma_found_at(rows@, i);
        if above_it is Some {
            lemma_levels_step(rows@, above_it->0@, 48);
            lemma_levels_bounded(rows@, above_it->0@, 48);
            lemma_levels_bounded(rows@, above_it->0@, 49);
        }
    }
}

/// One level more that may be looked at changes nothing where the top was reached before, and
/// finds at most one level more.
proof fn lemma_levels_step(rows: Seq<ChannelRow>, id: Seq<char>, most: nat)
    ensures
        levels(rows, id, most) is Some ==> levels(rows, id, most + 1) == levels(rows, id, most),
        levels(rows, id, most) is None && levels(rows, id, most + 1) is Some ==> levels(
            rows,
            id,
            most + 1,
        ) == Some((most + 1) as nat),
    decreases most,
{
    match parent_of(rows, id) {
        Some(p) => {
            if most > 0 {
                lemma_levels_step(rows, p, (most - 1) as nat);
            } else {
                assert(levels(rows, p, 0) is Some ==> levels(rows, p, 0) == Some(0nat));
            }
        },
        None => {},
    }
}

/// A channel lies above another exactly where it is the one directly above it, or lies above
/// that one.
pub proof fn above_is_step_by_step(
    rows: &Vec<ChannelRow>,
    candidate: &str,
    start: &str,
    r: bool,
    next: &str,
    s: bool,
    i: int,
)
    requires
        each_once(rows@),
        call_ensures(is_ancestor, (rows, candidate, start), r),
        call_ensures(is_ancestor, (rows, candidate, next), s),
        0 <= i < rows@.len(),
        rows@[i].id@ == start@,
        rows@[i].parent_id matches Some(p) ==> p@ == next@,
    ensures
        rows@[i].parent_id is None ==> !r,
        rows@[i].parent_id is Some ==> (r <==> candidate@ == next@ || s),
{
    lemma_found_at(rows@, i);
    assert(parent_of(rows@, start@) == opt_text(rows@[i].parent_id));
    assert(climb(rows@, start@, 0) == Some(start@));
    assert(climb(rows@, start@, 1) == parent_of(rows@, start@)) by {
        assert(climb(rows@, start@, (1 - 1) as nat) == Some(start@));
    }
    if rows@[i].parent_id is Some {
        assert(climb(rows@, start@, 1) == Some(next@));
        if r {
            let n = choose|n: nat| n > 0 && #[trigger] climb(rows@, start@, n) == Some(candidate@);
            lemma_climb_further(rows@, start@, 1, (n - 1) as nat);
            assert(1 + (n - 1) == n);
            if n > 1 {
                assert(climb(rows@, next@, (n - 1) as nat) == Some(candidate@));
            }
        }
        if s {
            let n = choose|n: nat| n > 0 && #[trigger] climb(rows@, next@, n) == Some(candidate@);
            lemma_climb_further(rows@, start@, 1, n);
            assert(climb(rows@, start@, (1 + n) as nat) == Some(candidate@));
        }
        if candidate@ == next@ {
            assert(climb(rows@, start@, 1) == Some(candidate@));
        }
    } else if r {
        let n = choose|n: nat| n > 0 && #[trigger] climb(rows@, start@, n) == Some(candidate@);
        lemma_climb_ends(rows@, start@, 1, n);
    }
}

/// A change of a channel is made by those who may: of its name, text or place by those who manage
/// channels, of its looks by those who manage icons. It touches that channel alone; what is given
/// is changed, and what is not stays.
pub proof fn a_channel_is_changed_as_asked(
    perms: &UserPermissions,
    rows: &mut Vec<ChannelRow>,
    setting: &Option<String>,
    id: &str,
    req: &UpdateChannelRequest,
    r: Result<u16, HubError>,
    i: int,
)
    requires
        call_ensures(update_channel, (perms, rows, setting, id, req), r),
        each_once(old(rows)@),
        0 <= i < old(rows)@.len(),
    ensures
        final(rows)@.len() == old(rows)@.len(),
        old(rows)@[i].id@ != id@ ==> final(rows)@[i] == old(rows)@[i],
        (req.name is Some || req.description is Some || req.parent_id is Some) && !allows(
            *perms,
            "manage_channels"@,
        ) ==> r is Err && final(rows)@ == old(rows)@,
        (req.icon is Some || req.color is Some || req.custom_icon_svg is Some) && !allows(
            *perms,
            "manage_channel_icons"@,
        ) ==> r is Err && final(rows)@ == old(rows)@,
        (forall|k: int| 0 <= k < old(rows)@.len() ==> (#[trigger] old(rows)@[k]).id@ != id@) ==> r
            is Err && r->Err_0.status == 404,
        r is Ok && old(rows)@[i].id@ == id@ ==> ({
            let n = final(rows)@[i];
            let o = old(rows)@[i];
            &&& n.id@ == o.id@
            &&& req.name matches Some(s) ==> n.name@ == trimmed(s@) && trimmed(s@).len() > 0
            &&& req.name is None ==> n.name@ == o.name@
            &&& req.description matches Some(d) ==> opt_text(n.description) == Some(d@)
            &&& req.description is None ==> opt_text(n.description) == opt_text(o.description)
            &&& req.parent_id matches Some(p) ==> opt_text(n.parent_id) == opt_text(p)
            &&& req.parent_id is None ==> opt_text(n.parent_id) == opt_text(o.parent_id)
            &&& req.icon matches Some(p) ==> opt_text(n.icon) == opt_text(p)
            &&& req.icon is None ==> opt_text(n.icon) == opt_text(o.icon)
            &&& req.color matches Some(p) ==> opt_text(n.color) == opt_text(p)
            &&& req.color is None ==> opt_text(n.color) == opt_text(o.color)
            &&& req.custom_icon_svg matches Some(p) ==> opt_text(n.custom_icon_svg) == opt_text(p)
            &&& req.custom_icon_svg is None ==> opt_text(n.custom_icon_svg) == opt_text(
                o.custom_icon_svg,
            )
            &&& n.created_by@ == o.created_by@
            &&& n.is_category == o.is_category
            &&& n.display_order == o.display_order
            &&& n.created_at == o.created_at
        }),
        r is Ok && req.name is Some && old(rows)@[i].id@ != id@ ==> old(rows)@[i].name@ != trimmed(
            req.name->0@,
        ),
        r is Ok && req.parent_id is Some && req.parent_id->0 is Some ==> is_category_there(
            old(rows)@,
            req.parent_id->0->0@,
        ) && req.parent_id->0->0@ != id@ && !above(old(rows)@, id@, req.parent_id->0->0@),
{
    lemma_may_is_allowed(*perms, MANAGE_CHANNELS@);
    lemma_may_is_allowed(*perms, MANAGE_CHANNEL_ICONS@);
    lemma_found(old(rows)@, id@);
    if req.parent_id is Some && req.parent_id->0 is Some {
        lemma_parent_is_category(old(rows)@, req.parent_id->0->0@);
    }
}

/// A change that those who may ask for is made: one of the looks or the text always, a move to
/// the top always, a move under a category that does not lie under the channel where no greatest
/// depth is set, a new name where it is not blank and no other channel has it.
pub proof fn a_change_that_may_be_is_made(
    perms: &UserPermissions,
    rows: &mut Vec<ChannelRow>,
    setting: &Option<String>,
    id: &str,
    req: &UpdateChannelRequest,
    r: Result<u16, HubError>,
    i: int,
)
    requires
        call_ensures(update_channel, (perms, rows, setting, id, req), r),
        each_once(old(rows)@),
        0 <= i < old(rows)@.len(),
        old(rows)@[i].id@ == id@,
        allows(*perms, "manage_channels"@),
        allows(*perms, "manage_channel_icons"@),
        req.parent_id is Some && req.parent_id->0 is Some ==> setting is None && is_category_there(
            old(rows)@,
            req.parent_id->0->0@,
        ) && req.parent_id->0->0@ != id@ && !above(old(rows)@, id@, req.parent_id->0->0@),
        req.name matches Some(s) ==> trimmed(s@).len() > 0 && forall|k: int|
            0 <= k < old(rows)@.len() && (#[trigger] old(rows)@[k]).name@ == trimmed(s@)
                ==> old(rows)@[k].id@ == id@,
    ensures
        r is Ok && r->Ok_0 == 200,
{
    lemma_may_is_allowed(*perms, MANAGE_CHANNELS@);
    lemma_may_is_allowed(*perms, MANAGE_CHANNEL_ICONS@);
    lemma_found_at(old(rows)@, i);
    if req.parent_id is Some && req.parent_id->0 is Some {
        lemma_parent_is_category(old(rows)@, req.parent_id->0->0@);
    }
}

/// The channels stand in the order in which they are named, and those that are not named keep
/// their place; only those who manage channels order them.
pub proof fn channels_stand_in_the_order_given(
    perms: &UserPermissions,
    rows: &mut Vec<ChannelRow>,
    req: &ReorderRequest,
    r: Result<u16, HubError>,
    i: int,
    k: int,
)
    requires
        req.channel_ids@.len() <= i64::MAX,
        call_ensures(reorder_channels, (perms, rows, req), r),
        0 <= i < old(rows)@.len(),
    ensures
        r is Ok <==> allows(*perms, "manage_channels"@),
        r is Err ==> r->Err_0.status == 403 && final(rows)@ == old(rows)@,
        final(rows)@.len() == old(rows)@.len(),
        final(rows)@[i] == (ChannelRow {
            display_order: final(rows)@[i].display_order,
            ..old(rows)@[i]
        }),
        r is Ok && 0 <= k < req.channel_ids@.len() && req.channel_ids@[k]@ == old(rows)@[i].id@ && (
        forall|m: int|
            k < m < req.channel_ids@.len() ==> (#[trigger] req.channel_ids@[m])@
                != old(rows)@[i].id@) ==> final(rows)@[i].display_order == k,
        (forall|m: int|
            0 <= m < req.channel_ids@.len() ==> (#[trigger] req.channel_ids@[m])@
                != old(rows)@[i].id@) ==> final(rows)@[i] == old(rows)@[i],
{
    lemma_may_is_allowed(*perms, MANAGE_CHANNELS@);
    let ids = texts(req.channel_ids@);
    let id = old(rows)@[i].id@;
    assert forall|m: int| 0 <= m < ids.len() implies #[trigger] ids[m] == req.channel_ids@[m]@ by {}
    if 0 <= k < ids.len() && ids[k] == id && (forall|m: int|
        k < m < req.channel_ids@.len() ==> (#[trigger] req.channel_ids@[m])@ != id) {
        assert forall|m: int| k < m < ids.len() implies #[trigger] ids[m] != id by {
            assert(req.channel_ids@[m]@ != id);
        }
        lemma_last_mention(ids, id, k);
    }
    if forall|m: int|
        0 <= m < req.channel_ids@.len() ==> (#[trigger] req.channel_ids@[m])@ != id {
        assert forall|m: int| 0 <= m < ids.len() implies #[trigger] ids[m] != id by {
            assert(req.channel_ids@[m]@ != id);
        }
        lemma_no_mention(ids, id);
    }
}

proof fn lemma_last_mention(ids: Seq<Seq<char>>, id: Seq<char>, k: int)
    requires
        0 <= k < ids.len(),
        ids[k] == id,
        forall|m: int| k < m < ids.len() ==> #[trigger] ids[m] != id,
    ensures
        order_in(ids, id) == Some(k),
    decreases ids.len(),
{
    if k < ids.len() - 1 {
        assert(ids.last() != id);
        assert forall|m: int| k < m < ids.drop_last().len() implies #[trigger] ids.drop_last()[m]
            != id by {
            assert(ids.drop_last()[m] == ids[m]);
        }
        lemma_last_mention(ids.drop_last(), id, k);
    }
}

proof fn lemma_no_mention(ids: Seq<Seq<char>>, id: Seq<char>)
    requires
        forall|m: int| 0 <= m < ids.len() ==> #[trigger] ids[m] != id,
    ensures
        order_in(ids, id) is None,
    decreases ids.len(),
{
    if ids.len() > 0 {
        assert(ids.last() != id);
        assert forall|m: int| 0 <= m < ids.drop_last().len() implies #[trigger] ids.drop_last()[m]
            != id by {
            assert(ids.drop_last()[m] == ids[m]);
        }
        lemma_no_mention(ids.drop_last(), id);
    }
}

/// A channel is deleted by those who manage channels, if nothing lies under it: it is gone, no
/// other channel is, what belongs to it goes with it, and the bots are told.
pub proof fn an_empty_channel_can_be_deleted(
    user: &str,
    perms: &UserPermissions,
    rows: &mut Vec<ChannelRow>,
    id: &str,
    r: Result<DeletedChannel, HubError>,
    row: ChannelRow,
)
    requires
        call_ensures(delete_channel, (user, perms, rows, id), r),
    ensures
        r is Ok <==> allows(*perms, "manage_channels"@) && (exists|i: int|
            0 <= i < old(rows)@.len() && (#[trigger] old(rows)@[i]).id@ == id@) && (forall|i: int|
            0 <= i < old(rows)@.len() && (#[trigger] old(rows)@[i]).parent_id is Some ==> old(rows)@[i].parent_id->0@ != id@),
        r is Err ==> final(rows)@ == old(rows)@,
        r is Err && allows(*perms, "manage_channels"@) ==> r->Err_0.status == if exists|i: int|
            0 <= i < old(rows)@.len() && (#[trigger] old(rows)@[i]).id@ == id@ {
            409int
        } else {
            404
        },
        r is Ok ==> (final(rows)@.contains(row) <==> old(rows)@.contains(row) && row.id@ != id@),
        r matches Ok(x) ==> x.data_of@ == id@ && x.event.event_type@ == "channel.deleted"@
            && opt_text(x.event.actor) == Some(user@) && opt_text(x.event.channel_id) == Some(id@),
{
    lemma_may_is_allowed(*perms, MANAGE_CHANNELS@);
    lemma_found(old(rows)@, id@);
    lemma_kept(old(rows)@, is_not(id@), row);
    if !has_children(old(rows)@, id@) {
        assert forall|i: int|
            0 <= i < old(rows)@.len() && (#[trigger] old(rows)@[i]).parent_id is Some implies old(rows)@[i].parent_id->0@ != id@ by {
            assert(opt_text(old(rows)@[i].parent_id) != Some(id@));
        }
    }
}

/// The channels are listed as they are stored, in the order of the rows.
pub proof fn channels_are_listed_as_stored(
    rows: Vec<ChannelRow>,
    r: Vec<ChannelResponse>,
    i: int,
)
    requires
        call_ensures(list_channels, (rows,), r),
    ensures
        r@.len() == rows@.len(),
        0 <= i < rows@.len() ==> r@[i].id@ == rows@[i].id@ && r@[i].name@ == rows@[i].name@
            && r@[i].parent_id == rows@[i].parent_id && r@[i].display_order == rows@[i].display_order
            && (r@[i].is_category <==> rows@[i].is_category != 0) && r@[i].created_by@
            == rows@[i].created_by@ && r@[i].created_at == rows@[i].created_at && r@[i].description
            == rows@[i].description && r@[i].icon == rows@[i].icon && r@[i].color == rows@[i].color
            && r@[i].custom_icon_svg == rows@[i].custom_icon_svg,
{
}

/// A channel in which someone is in voice is counted with how many are, and no other channel is;
/// everyone who is in voice somewhere is named.
pub proof fn voice_is_counted_by_channel(
    voice: &Voice,
    counts: Vec<(String, usize)>,
    users: Vec<String>,
    names: &Vec<UserName>,
    lists: Vec<(String, Vec<VoiceParticipantInfo>)>,
    channel: Seq<char>,
    user: Seq<char>,
    i: int,
)
    requires
        voice.wf(),
        call_ensures(voice_populations, (voice,), counts),
        call_ensures(voice_active_users, (voice,), users),
        call_ensures(voice_channel_participants, (voice, names), lists),
        voice.ports().dom().contains((channel, user)),
    ensures
        exists|k: int| 0 <= k < counts@.len() && (#[trigger] counts@[k]).0@ == channel,
        exists|k: int| 0 <= k < lists@.len() && (#[trigger] lists@[k]).0@ == channel,
        texts(users@).contains(user),
        0 <= i < counts@.len() ==> counts@[i].1 > 0 && counts@[i].1 == members_in(
            voice.members.keys(),
            counts@[i].0@,
        ).len(),
        0 <= i < lists@.len() && lists@[i].0@ == channel ==> exists|m: int|
            0 <= m < lists@[i].1@.len() && (#[trigger] lists@[i].1@[m]).public_key@ == user,
{
    participants_are_those_in_voice(*voice, channel, user);
    let inside = members_in(voice.members.keys(), channel);
    let m: int = choose|m: int| 0 <= m < inside.len() && inside[m] == user;
    assert(inside.len() > 0);
    assert(counts_channel(counts@, channel));
    assert(in_voice(voice.ports(), user));
    if 0 <= i < lists@.len() && lists@[i].0@ == channel {
        assert(introduces(lists@[i].1@, inside, names@));
        assert(lists@[i].1@[m].public_key@ == user);
    }
}

/// Where a greatest depth is set, a channel is created only within it: it lies fewer levels deep
/// than that, and a category leaves room for a channel under it. Within it nothing else is asked
/// for than without.
pub proof fn channels_are_created_within_the_depth(
    user: &str,
    perms: &UserPermissions,
    rows: &Vec<ChannelRow>,
    setting: &Option<String>,
    req: &CreateChannelRequest,
    id: &str,
    now: i64,
    r: Result<(ChannelResponse, HubEvent), HubError>,
    none: &Option<String>,
    free: Result<(ChannelResponse, HubEvent), HubError>,
    depth: Result<u32, HubError>,
    most: u32,
)
    requires
        forall|k: int| 0 <= k < rows@.len() ==> (#[trigger] rows@[k]).display_order < i64::MAX,
        call_ensures(create_channel, (user, perms, rows, setting, req, id, now), r),
        none is None,
        call_ensures(create_channel, (user, perms, rows, none, req, id, now), free),
        call_ensures(node_depth, (rows, &req.parent_id), depth),
        call_ensures(read_max_depth, (setting,), most),
    ensures
        r is Ok ==> free is Ok,
        most == 0 ==> (r is Ok <==> free is Ok),
        most > 0 && r is Ok ==> depth is Ok && depth->Ok_0 < most && (req.is_category
            ==> depth->Ok_0 + 1 < most),
        most > 0 && free is Ok && depth is Ok && depth->Ok_0 < most && (req.is_category
            ==> depth->Ok_0 + 1 < most) ==> r is Ok,
        most > 0 && free is Ok && r is Err ==> r->Err_0.status == 400,
        setting is None ==> most == 0,
        setting matches Some(s) ==> match unsigned_value(s@, 4294967295) {
            Some(n) => most == n,
            None => most == 0,
        },
{
}

/// Where a greatest depth is set, a channel is moved only within it.
pub proof fn channels_are_moved_within_the_depth(
    perms: &UserPermissions,
    rows: &mut Vec<ChannelRow>,
    setting: &Option<String>,
    id: &str,
    req: &UpdateChannelRequest,
    r: Result<u16, HubError>,
    before: &Vec<ChannelRow>,
    parent: &Option<String>,
    depth: Result<u32, HubError>,
    most: u32,
    i: int,
)
    requires
        call_ensures(update_channel, (perms, rows, setting, id, req), r),
        each_once(old(rows)@),
        0 <= i < old(rows)@.len(),
        old(rows)@[i].id@ == id@,
        before@ == old(rows)@,
        req.parent_id == Some(*parent),
        parent is Some,
        call_ensures(node_depth, (before, parent), depth),
        call_ensures(read_max_depth, (setting,), most),
        most > 0,
    ensures
        r is Ok ==> depth is Ok && depth->Ok_0 < most && (old(rows)@[i].is_category == 1
            ==> depth->Ok_0 + 1 < most),
        req.name is None && allows(*perms, "manage_channels"@) && allows(
            *perms,
            "manage_channel_icons"@,
        ) && is_category_there(old(rows)@, parent->0@) && parent->0@ != id@ && !above(
            old(rows)@,
            id@,
            parent->0@,
        ) && depth is Ok && depth->Ok_0 < most && (old(rows)@[i].is_category == 1 ==> depth->Ok_0
            + 1 < most) ==> r is Ok,
{
    lemma_may_is_allowed(*perms, MANAGE_CHANNELS@);
    lemma_may_is_allowed(*perms, MANAGE_CHANNEL_ICONS@);
    lemma_found_at(old(rows)@, i);
    lemma_parent_is_category(old(rows)@, parent->0@);
}

} // verus!
