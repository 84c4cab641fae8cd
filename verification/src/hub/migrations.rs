//! What a fresh storage begins with, and what is added to an old one.
use vstd::prelude::*;
use crate::hub::auth::{EVERYONE_ROLE, OWNER_ROLE};
use crate::hub::permissions::{
    granted_to, has_role, RolePermission, RoleRow, UserPermissions, ADMIN, CREATE_POSTS,
    MANAGE_POSTS, READ_MESSAGES, SEND_MESSAGES, START_GAME,
};
use crate::table::Table;
use crate::text::same;

verus! {

/// Whether the migration goes on after a statement: one that only adds a column may fail, for
/// the column may be there already; any other one ends it.
pub fn goes_on(required: bool, fault: Option<String>) -> (r: Result<(), String>)
    ensures
        match fault {
            Some(f) => if required {
                r == Err::<(), String>(f)
            } else {
                r is Ok
            },
            None => r is Ok,
        },
{
    match fault {
        Some(f) => if required {
            Err(f)
        } else {
            Ok(())
        },
        None => Ok(()),
    }
}

/// The setting that a fresh hub has under the key.
pub open spec fn default_setting(key: Seq<char>) -> Option<Seq<char>> {
    if key == "invite_only"@ {
        Some("false"@)
    } else if key == "min_security_level"@ {
        Some("0"@)
    } else if key == "require_approval"@ {
        Some("false"@)
    } else if key == "max_channel_depth"@ {
        Some("0"@)
    } else if key == "lobby_enabled"@ {
        Some("1"@)
    } else if key == "lobby_welcome_md"@ {
        Some(""@)
    } else if key == "challenge_mode"@ {
        Some("off"@)
    } else if key == "challenge_difficulty"@ {
        Some("easy"@)
    } else if key == "min_pow_level"@ {
        Some("0"@)
    } else if key == "hub_tags"@ {
        Some("[]"@)
    } else if key == "hub_nsfw"@ {
        Some("false"@)
    } else {
        None
    }
}

/// Whether the settings are the old ones, with the default under every key of a fresh hub that
/// had none.
pub open spec fn settings_seeded(
    new: Map<Seq<char>, String>,
    before: Map<Seq<char>, String>,
) -> bool {
    forall|k: Seq<char>| #[trigger]
        new.dom().contains(k) == (before.dom().contains(k) || default_setting(k) is Some) && (
        new.dom().contains(k) ==> new[k]@ == if before.dom().contains(k) {
            before[k]@
        } else {
            default_setting(k)->0
        })
}

fn insert_or_ignore(settings: &mut Table<String, String>, key: &str, value: &str)
    requires
        old(settings).wf(),
    ensures
        final(settings).wf(),
        forall|k: Seq<char>| #[trigger]
            final(settings)@.dom().contains(k) == (old(settings)@.dom().contains(k) || k == key@)
                && (final(settings)@.dom().contains(k) ==> final(settings)@[k]@
                == if old(settings)@.dom().contains(k) {
                old(settings)@[k]@
            } else {
                value@
            }),
{
    let k = key.to_owned();
    if !settings.contains(&k) {
        settings.insert(k, value.to_owned());
    }
}

/// Gives the hub the settings that it has not got.
pub fn seed_settings(settings: &mut Table<String, String>)
    requires
        old(settings).wf(),
    ensures
        final(settings).wf(),
        settings_seeded(final(settings)@, old(settings)@),
{
    insert_or_ignore(settings, "invite_only", "false");
    insert_or_ignore(settings, "min_security_level", "0");
    insert_or_ignore(settings, "require_approval", "false");
    insert_or_ignore(settings, "max_channel_depth", "0");
    insert_or_ignore(settings, "lobby_enabled", "1");
    insert_or_ignore(settings, "lobby_welcome_md", "");
    insert_or_ignore(settings, "challenge_mode", "off");
    insert_or_ignore(settings, "challenge_difficulty", "easy");
    insert_or_ignore(settings, "min_pow_level", "0");
    insert_or_ignore(settings, "hub_tags", "[]");
    insert_or_ignore(settings, "hub_nsfw", "false");
}

/// A setting that the hub has is never overwritten, and to seed twice is to seed once.
pub proof fn seeding_keeps_settings(
    before: Map<Seq<char>, String>,
    once: Map<Seq<char>, String>,
    twice: Map<Seq<char>, String>,
    key: Seq<char>,
)
    requires
        settings_seeded(once, before),
        settings_seeded(twice, once),
    ensures
        before.dom().contains(key) ==> once.dom().contains(key) && once[key]@ == before[key]@,
        twice.dom().contains(key) == once.dom().contains(key),
        once.dom().contains(key) ==> twice[key]@ == once[key]@,
{
    assert(once.dom().contains(key) == (before.dom().contains(key) || default_setting(key)
        is Some));
    assert(twice.dom().contains(key) == (once.dom().contains(key) || default_setting(key)
        is Some));
}

/// Whether a role stands in the way of another: it has the identifier or the name.
pub open spec fn role_clashes(rows: Seq<RoleRow>, id: Seq<char>, name: Seq<char>) -> bool {
    exists|i: int|
        0 <= i < rows.len() && ((#[trigger] rows[i]).id@ == id || rows[i].name@ == name)
}

/// Whether the roles are the old ones with the given one, unless one stands in its way.
pub open spec fn role_added(
    new: Seq<RoleRow>,
    before: Seq<RoleRow>,
    id: Seq<char>,
    name: Seq<char>,
    priority: i64,
) -> bool {
    if role_clashes(before, id, name) {
        new == before
    } else {
        &&& new.len() == before.len() + 1
        &&& new.drop_last() == before
        &&& new.last().id@ == id
        &&& new.last().name@ == name
        &&& new.last().priority == priority
        &&& new.last().created_at == 0
    }
}

fn add_role(rows: &mut Vec<RoleRow>, id: &str, name: &str, priority: i64)
    ensures
        role_added(final(rows)@, old(rows)@, id@, name@, priority),
{
    let mut i: usize = 0;
    while i < rows.len()
        invariant
            i <= rows@.len(),
            rows@ == old(rows)@,
            forall|k: int|
                0 <= k < i ==> (#[trigger] rows@[k]).id@ != id@ && rows@[k].name@ != name@,
        decreases rows@.len() - i,
    {
        if same(rows[i].id.as_str(), id) || same(rows[i].name.as_str(), name) {
            return;
        }
        i = i + 1;
    }
    rows.push(RoleRow { id: id.to_owned(), name: name.to_owned(), priority, created_at: 0 });
    assert(rows@.drop_last() =~= old(rows)@);
}

/// Whether the roles are the old ones with the two that every hub has.
pub open spec fn roles_seeded(new: Seq<RoleRow>, before: Seq<RoleRow>) -> bool {
    exists|mid: Seq<RoleRow>| #[trigger]
        role_added(mid, before, EVERYONE_ROLE@, "@everyone"@, 0) && role_added(
            new,
            mid,
            OWNER_ROLE@,
            "Owner"@,
            999999,
        )
}

/// Gives the hub the roles that every hub has: that of everyone, and above all others that of
/// the owner.
pub fn seed_roles(rows: &mut Vec<RoleRow>)
    ensures
        roles_seeded(final(rows)@, old(rows)@),
{
    add_role(rows, EVERYONE_ROLE, "@everyone", 0);
    let ghost mid = rows@;
    add_role(rows, OWNER_ROLE, "Owner", 999999);
    assert(role_added(mid, old(rows)@, EVERYONE_ROLE@, "@everyone"@, 0));
}

/// Whether the role has the permission.
pub open spec fn permits(rows: Seq<RolePermission>, role: Seq<char>, permission: Seq<char>) -> bool {
    exists|i: int|
        0 <= i < rows.len() && (#[trigger] rows[i]).role_id@ == role && rows[i].permission@
            == permission
}

/// Whether a fresh hub gives the permission to the role: everyone may read and send messages,
/// create posts and start games; the owner is an admin and manages posts.
pub open spec fn permitted_from_start(role: Seq<char>, permission: Seq<char>) -> bool {
    ||| role == EVERYONE_ROLE@ && (permission == SEND_MESSAGES@ || permission == READ_MESSAGES@
        || permission == CREATE_POSTS@ || permission == START_GAME@)
    ||| role == OWNER_ROLE@ && (permission == ADMIN@ || permission == MANAGE_POSTS@)
}

/// Whether the rows are those of before, as they were, and others after them, none of which
/// says what a row before it says.
pub open spec fn adds_once(new: Seq<RolePermission>, before: Seq<RolePermission>) -> bool {
    &&& before.is_prefix_of(new)
    &&& forall|i: int|
        before.len() <= i < new.len() ==> !permits(
            new.take(i),
            (#[trigger] new[i]).role_id@,
            new[i].permission@,
        )
}

proof fn lemma_adds_once(a: Seq<RolePermission>, b: Seq<RolePermission>, c: Seq<RolePermission>)
    requires
        adds_once(b, a),
        adds_once(c, b),
    ensures
        adds_once(c, a),
{
    assert forall|i: int| a.len() <= i < c.len() implies !permits(
        c.take(i),
        (#[trigger] c[i]).role_id@,
        c[i].permission@,
    ) by {
        if i < b.len() {
            assert(c[i] == b[i]);
            assert(c.take(i) =~= b.take(i));
        }
    }
    assert(a =~= c.subrange(0, a.len() as int));
}

/// Whether the permissions are the old ones and those of a fresh hub, each of which is added
/// only where it is not there yet.
pub open spec fn permissions_seeded(new: Seq<RolePermission>, before: Seq<RolePermission>) -> bool {
    &&& adds_once(new, before)
    &&& forall|role: Seq<char>, permission: Seq<char>| #[trigger]
        permits(new, role, permission) == (permits(before, role, permission)
            || permitted_from_start(role, permission))
}

fn grant(rows: &mut Vec<RolePermission>, role_id: &str, permission: &str)
    ensures
        adds_once(final(rows)@, old(rows)@),
        forall|r: Seq<char>, p: Seq<char>| #[trigger]
            permits(final(rows)@, r, p) == (permits(old(rows)@, r, p) || (r == role_id@ && p
                == permission@)),
{
    let mut i: usize = 0;
    while i < rows.len()
        invariant
            i <= rows@.len(),
            rows@ == old(rows)@,
            forall|k: int|
                0 <= k < i ==> !((#[trigger] rows@[k]).role_id@ == role_id@ && rows@[k].permission@
                    == permission@),
        decreases rows@.len() - i,
    {
        if same(rows[i].role_id.as_str(), role_id) && same(
            rows[i].permission.as_str(),
            permission,
        ) {
            return;
        }
        i = i + 1;
    }
    let ghost before = rows@;
    rows.push(
        RolePermission { role_id: role_id.to_owned(), permission: permission.to_owned() },
    );
    assert(rows@.take(before.len() as int) =~= before);
    assert forall|r: Seq<char>, p: Seq<char>| #[trigger] permits(rows@, r, p) == (permits(
        before,
        r,
        p,
    ) || (r == role_id@ && p == permission@)) by {
        if permits(before, r, p) {
            let k = choose|k: int|
                0 <= k < before.len() && (#[trigger] before[k]).role_id@ == r
                    && before[k].permission@ == p;
            assert(rows@[k] == before[k]);
        }
        if r == role_id@ && p == permission@ {
            assert(rows@[before.len() as int].role_id@ == r);
        }
        if permits(rows@, r, p) {
            let k = choose|k: int|
                0 <= k < rows@.len() && (#[trigger] rows@[k]).role_id@ == r && rows@[k].permission@
                    == p;
            if k < before.len() {
                assert(before[k] == rows@[k]);
            }
        }
    }
}

/// Gives the roles that every hub has their permissions. None that stands is taken away.
pub fn seed_permissions(rows: &mut Vec<RolePermission>)
    ensures
        permissions_seeded(final(rows)@, old(rows)@),
{
    grant(rows, EVERYONE_ROLE, SEND_MESSAGES);
    let ghost a = rows@;
    grant(rows, EVERYONE_ROLE, READ_MESSAGES);
    let ghost b = rows@;
    grant(rows, OWNER_ROLE, ADMIN);
    let ghost c = rows@;
    grant(rows, EVERYONE_ROLE, CREATE_POSTS);
    let ghost d = rows@;
    grant(rows, OWNER_ROLE, MANAGE_POSTS);
    let ghost e = rows@;
    grant(rows, EVERYONE_ROLE, START_GAME);
    proof {
        lemma_adds_once(old(rows)@, a, b);
        lemma_adds_once(old(rows)@, b, c);
        lemma_adds_once(old(rows)@, c, d);
        lemma_adds_once(old(rows)@, d, e);
        lemma_adds_once(old(rows)@, e, rows@);
    }
}

/// The part of the storage that every migration fills.
pub struct Seeded {
    pub roles: Vec<RoleRow>,
    pub permissions: Vec<RolePermission>,
    pub settings: Table<String, String>,
}

/// Fills the storage with what every hub has.
pub fn run(s: &mut Seeded)
    requires
        old(s).settings.wf(),
    ensures
        final(s).settings.wf(),
        roles_seeded(final(s).roles@, old(s).roles@),
        permissions_seeded(final(s).permissions@, old(s).permissions@),
        settings_seeded(final(s).settings@, old(s).settings@),
{
    seed_roles(&mut s.roles);
    seed_permissions(&mut s.permissions);
    seed_settings(&mut s.settings);
}

/// Whoever has the role of the owner may do everything, and whoever has that of everyone may
/// read and send messages.
pub proof fn seeded_roles_permit(
    before: Seq<RolePermission>,
    grants: Seq<RolePermission>,
    p: UserPermissions,
    permission: Seq<char>,
)
    requires
        permissions_seeded(grants, before),
        p.granted() == granted_to(p.roles@, grants),
    ensures
        has_role(p.roles@, OWNER_ROLE@) ==> p.refusal(permission) is None,
        has_role(p.roles@, EVERYONE_ROLE@) ==> p.refusal(SEND_MESSAGES@) is None && p.refusal(
            READ_MESSAGES@,
        ) is None,
{
    if has_role(p.roles@, OWNER_ROLE@) {
        assert(permits(grants, OWNER_ROLE@, ADMIN@));
        assert(granted_to(p.roles@, grants).contains(ADMIN@));
    }
    if has_role(p.roles@, EVERYONE_ROLE@) {
        assert(permits(grants, EVERYONE_ROLE@, SEND_MESSAGES@));
        assert(permits(grants, EVERYONE_ROLE@, READ_MESSAGES@));
        assert(granted_to(p.roles@, grants).contains(SEND_MESSAGES@));
        assert(granted_to(p.roles@, grants).contains(READ_MESSAGES@));
    }
}

/// A migration ends at a statement that had to succeed and did not, and at no other.
pub proof fn only_what_is_required_ends_the_migration(
    required: bool,
    fault: Option<String>,
    r: Result<(), String>,
)
    requires
        call_ensures(goes_on, (required, fault), r),
    ensures
        r is Err <==> required && fault is Some,
        r matches Err(f) ==> Some(f) == fault,
{
}

/// A fresh hub asks for nothing: it is open to all without an invitation, approval, level, work
/// or puzzle, nests channels as deep as one likes, has a lobby, no tags and is safe for work. A
/// hub that has settings keeps them.
pub proof fn a_fresh_hub_asks_for_nothing(
    settings: &mut Table<String, String>,
    done: (),
    key: Seq<char>,
)
    requires
        call_ensures(seed_settings, (settings,), done),
        key == "invite_only"@ || key == "min_security_level"@ || key == "require_approval"@ || key
            == "max_channel_depth"@ || key == "lobby_enabled"@ || key == "lobby_welcome_md"@ || key
            == "challenge_mode"@ || key == "challenge_difficulty"@ || key == "min_pow_level"@ || key
            == "hub_tags"@ || key == "hub_nsfw"@,
    ensures
        final(settings)@.dom().contains(key),
        old(settings)@.dom().contains(key) ==> final(settings)@[key]@ == old(settings)@[key]@,
        !old(settings)@.dom().contains(key) ==> ({
            let v = final(settings)@[key]@;
            &&& key == "invite_only"@ ==> v == "false"@
            &&& key == "require_approval"@ ==> v == "false"@
            &&& key == "hub_nsfw"@ ==> v == "false"@
            &&& key == "min_security_level"@ ==> v == "0"@
            &&& key == "min_pow_level"@ ==> v == "0"@
            &&& key == "max_channel_depth"@ ==> v == "0"@
            &&& key == "lobby_enabled"@ ==> v == "1"@
            &&& key == "lobby_welcome_md"@ ==> v == ""@
            &&& key == "challenge_mode"@ ==> v == "off"@
            &&& key == "challenge_difficulty"@ ==> v == "easy"@
            &&& key == "hub_tags"@ ==> v == "[]"@
        }),
{
    lemma_setting_names_differ();
}

/// The names of the settings all differ.
proof fn lemma_setting_names_differ()
    ensures
        default_setting("invite_only"@) == Some("false"@),
        default_setting("min_security_level"@) == Some("0"@),
        default_setting("require_approval"@) == Some("false"@),
        default_setting("max_channel_depth"@) == Some("0"@),
        default_setting("lobby_enabled"@) == Some("1"@),
        default_setting("lobby_welcome_md"@) == Some(""@),
        default_setting("challenge_mode"@) == Some("off"@),
        default_setting("challenge_difficulty"@) == Some("easy"@),
        default_setting("min_pow_level"@) == Some("0"@),
        default_setting("hub_tags"@) == Some("[]"@),
        default_setting("hub_nsfw"@) == Some("false"@),
{
    reveal_strlit("invite_only");
    reveal_strlit("min_security_level");
    reveal_strlit("require_approval");
    reveal_strlit("max_channel_depth");
    reveal_strlit("lobby_enabled");
    reveal_strlit("lobby_welcome_md");
    reveal_strlit("challenge_mode");
    reveal_strlit("challenge_difficulty");
    reveal_strlit("min_pow_level");
    reveal_strlit("hub_tags");
    reveal_strlit("hub_nsfw");
    assert("invite_only"@[0] == 'i');
    assert("min_security_level"@.len() == 18);
    assert("require_approval"@[0] == 'r');
    assert("max_channel_depth"@.len() == 17);
    assert("lobby_enabled"@.len() == 13 && "lobby_enabled"@[0] == 'l');
    assert("lobby_welcome_md"@.len() == 16 && "lobby_welcome_md"@[0] == 'l');
    assert("challenge_mode"@.len() == 14);
    assert("challenge_difficulty"@.len() == 20);
    assert("min_pow_level"@.len() == 13 && "min_pow_level"@[0] == 'm');
    assert("hub_tags"@.len() == 8 && "hub_tags"@[4] == 't');
    assert("hub_nsfw"@.len() == 8 && "hub_nsfw"@[4] == 'n');
}

/// A fresh hub has two roles, that of everyone and above it that of the owner; roles that a hub
/// has stay as they are.
pub proof fn a_fresh_hub_has_its_roles(rows: &mut Vec<RoleRow>, done: (), i: int)
    requires
        call_ensures(seed_roles, (rows,), done),
    ensures
        old(rows)@.len() == 0 ==> final(rows)@.len() == 2 && final(rows)@[0].id@
            == "builtin-everyone"@ && final(rows)@[0].name@ == "@everyone"@
            && final(rows)@[0].priority == 0 && final(rows)@[1].id@ == "builtin-owner"@
            && final(rows)@[1].name@ == "Owner"@ && final(rows)@[1].priority == 999999,
        final(rows)@.len() >= old(rows)@.len(),
        0 <= i < old(rows)@.len() ==> final(rows)@[i] == old(rows)@[i],
{
    reveal_strlit("builtin-everyone");
    reveal_strlit("builtin-owner");
    reveal_strlit("@everyone");
    reveal_strlit("Owner");
    assert("builtin-everyone"@.len() != "builtin-owner"@.len());
    assert("@everyone"@.len() != "Owner"@.len());
    let mid = choose|mid: Seq<RoleRow>| #[trigger]
        role_added(mid, old(rows)@, EVERYONE_ROLE@, "@everyone"@, 0) && role_added(
            final(rows)@,
            mid,
            OWNER_ROLE@,
            "Owner"@,
            999999,
        );
    if old(rows)@.len() == 0 {
        assert(mid.len() == 1);
        assert(mid.last() == mid[0]);
        assert(!role_clashes(mid, OWNER_ROLE@, "Owner"@));
        assert(final(rows)@.drop_last()[0] == final(rows)@[0]);
    }
    if 0 <= i < old(rows)@.len() {
        if mid.len() > old(rows)@.len() {
            assert(mid.drop_last()[i] == mid[i]);
        }
        if final(rows)@.len() > mid.len() {
            assert(final(rows)@.drop_last()[i] == final(rows)@[i]);
        }
    }
}

/// From the start everyone may read and send messages, create posts and start games, and the
/// owner is an admin and manages posts; no other permission is given, and none is taken away.
pub proof fn a_fresh_hub_has_its_permissions(
    rows: &mut Vec<RolePermission>,
    done: (),
    role: Seq<char>,
    permission: Seq<char>,
)
    requires
        call_ensures(seed_permissions, (rows,), done),
    ensures
        permits(final(rows)@, role, permission) <==> permits(old(rows)@, role, permission) || (role
            == "builtin-everyone"@ && (permission == "send_messages"@ || permission
            == "read_messages"@ || permission == "create_posts"@ || permission == "start_game"@))
            || (role == "builtin-owner"@ && (permission == "admin"@ || permission
            == "manage_posts"@)),
        permits(old(rows)@, role, permission) <==> exists|i: int|
            0 <= i < old(rows)@.len() && (#[trigger] old(rows)@[i]).role_id@ == role
                && old(rows)@[i].permission@ == permission,
{
}

/// A migration gives the hub what a fresh hub has: roles, permissions and settings alike.
pub proof fn a_migration_fills_all_three(s: &mut Seeded, done: (), key: Seq<char>)
    requires
        call_ensures(run, (s,), done),
    ensures
        permits(final(s).permissions@, "builtin-owner"@, "admin"@),
        permits(final(s).permissions@, "builtin-everyone"@, "send_messages"@),
        permits(final(s).permissions@, "builtin-everyone"@, "read_messages"@),
        final(s).settings@.dom().contains("invite_only"@),
        final(s).settings@.dom().contains("min_pow_level"@),
        final(s).settings@.dom().contains("hub_tags"@),
        old(s).settings@.dom().contains(key) ==> final(s).settings@.dom().contains(key) && final(s).settings@[key]@ == old(s).settings@[key]@,
        final(s).roles@.len() >= old(s).roles@.len(),
        old(s).roles@.len() == 0 ==> final(s).roles@.len() > 0,
{
    lemma_setting_names_differ();
    let mid = choose|mid: Seq<RoleRow>| #[trigger]
        role_added(mid, old(s).roles@, EVERYONE_ROLE@, "@everyone"@, 0) && role_added(
            final(s).roles@,
            mid,
            OWNER_ROLE@,
            "Owner"@,
            999999,
        );
    assert(mid.len() >= old(s).roles@.len());
}

} // verus!
