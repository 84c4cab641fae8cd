//! Roles, what they permit, and who outranks whom.
use vstd::prelude::*;
use crate::hub::{hub_refusal, refuse_text, refused, HubError, HubRefusal};
use crate::text::{concat2, contains_text, same, texts};

verus! {

pub const SEND_MESSAGES: &'static str = "send_messages";

pub const READ_MESSAGES: &'static str = "read_messages";

pub const MANAGE_CHANNELS: &'static str = "manage_channels";

pub const MANAGE_MESSAGES: &'static str = "manage_messages";

pub const MANAGE_ROLES: &'static str = "manage_roles";

pub const KICK_MEMBERS: &'static str = "kick_members";

pub const BAN_MEMBERS: &'static str = "ban_members";

pub const MUTE_MEMBERS: &'static str = "mute_members";

pub const TIMEOUT_MEMBERS: &'static str = "timeout_members";

pub const MANAGE_GAMES: &'static str = "manage_games";

pub const MANAGE_HUB_ICONS: &'static str = "manage_hub_icons";

pub const MANAGE_CHANNEL_ICONS: &'static str = "manage_channel_icons";

pub const ADMIN: &'static str = "admin";

pub const CREATE_POSTS: &'static str = "create_posts";

pub const MANAGE_POSTS: &'static str = "manage_posts";

pub const START_GAME: &'static str = "start_game";

/// A role of the hub.
pub struct RoleRow {
    pub id: String,
    pub name: String,
    pub priority: i64,
    pub created_at: i64,
}

/// That a role has a permission.
pub struct RolePermission {
    pub role_id: String,
    pub permission: String,
}

/// What a user may do: their roles, the permissions of all their roles together, and the
/// highest priority among the roles.
pub struct UserPermissions {
    pub roles: Vec<RoleRow>,
    pub effective: Vec<String>,
    pub max_priority: i64,
}

impl UserPermissions {
    /// The permissions that the roles give.
    pub open spec fn granted(self) -> Set<Seq<char>> {
        texts(self.effective@).to_set()
    }

    /// Whether the permission is held. An admin holds every one.
    pub open spec fn may(self, permission: Seq<char>) -> bool {
        self.granted().contains(ADMIN@) || self.granted().contains(permission)
    }

    /// The refusal for want of the permission, where it is not held.
    pub open spec fn refusal(self, permission: Seq<char>) -> Option<HubRefusal> {
        if self.may(permission) {
            None
        } else {
            Some(hub_refusal(403, "Missing permission: "@ + permission))
        }
    }

    /// Whether the permission is held. An admin holds every one.
    pub fn has(&self, permission: &str) -> (r: bool)
        ensures
            r == self.may(permission@),
    {
        contains_text(&self.effective, ADMIN) || contains_text(&self.effective, permission)
    }

    /// Refuses where the permission is not held.
    pub fn require(&self, permission: &str) -> (r: Result<(), HubError>)
        ensures
            match self.refusal(permission@) {
                Some(d) => refused(r, d),
                None => r is Ok,
            },
    {
        if self.has(permission) {
            Ok(())
        } else {
            Err(refuse_text(403, concat2("Missing permission: ", permission)))
        }
    }
}

/// Whether one of the roles has the identifier.
pub open spec fn has_role(roles: Seq<RoleRow>, id: Seq<char>) -> bool {
    exists|i: int| 0 <= i < roles.len() && (#[trigger] roles[i]).id@ == id
}

/// The permissions that the grants give to the roles.
pub open spec fn granted_to(roles: Seq<RoleRow>, grants: Seq<RolePermission>) -> Set<Seq<char>> {
    Set::new(
        |p: Seq<char>|
            exists|i: int|
                0 <= i < grants.len() && (#[trigger] grants[i]).permission@ == p && has_role(
                    roles,
                    grants[i].role_id@,
                ),
    )
}

/// The highest priority among the roles; 0 where there are none.
pub open spec fn top_priority(roles: Seq<RoleRow>) -> int
    decreases roles.len(),
{
    if roles.len() == 0 {
        0
    } else if roles.len() == 1 {
        roles[0].priority as int
    } else {
        let rest = top_priority(roles.drop_last());
        if roles.last().priority > rest {
            roles.last().priority as int
        } else {
            rest
        }
    }
}

fn role_held(roles: &Vec<RoleRow>, id: &str) -> (r: bool)
    ensures
        r == has_role(roles@, id@),
{
    let mut i: usize = 0;
    while i < roles.len()
        invariant
            i <= roles@.len(),
            forall|k: int| 0 <= k < i ==> (#[trigger] roles@[k]).id@ != id@,
        decreases roles@.len() - i,
    {
        if same(roles[i].id.as_str(), id) {
            return true;
        }
        i = i + 1;
    }
    false
}

/// What the user with these roles may do, given which roles have which permissions.
pub fn user_permissions(roles: Vec<RoleRow>, grants: &Vec<RolePermission>) -> (r: UserPermissions)
    ensures
        r.roles == roles,
        r.granted() == granted_to(roles@, grants@),
        texts(r.effective@).no_duplicates(),
        r.max_priority == top_priority(roles@),
{
    let mut effective: Vec<String> = Vec::new();
    let mut i: usize = 0;
    while i < grants.len()
        invariant
            i <= grants@.len(),
            texts(effective@).no_duplicates(),
            forall|p: Seq<char>| #[trigger]
                texts(effective@).contains(p) <==> exists|k: int|
                    0 <= k < i && (#[trigger] grants@[k]).permission@ == p && has_role(
                        roles@,
                        grants@[k].role_id@,
                    ),
        decreases grants@.len() - i,
    {
        let ghost before = texts(effective@);
        let g = &grants[i];
        if role_held(&roles, g.role_id.as_str()) && !contains_text(
            &effective,
            g.permission.as_str(),
        ) {
            effective.push(g.permission.clone());
            proof {
                let now = texts(effective@);
                assert(now =~= before.push(g.permission@));
                assert forall|p: Seq<char>| #[trigger] now.contains(p) <==> (before.contains(p) || p
                    == g.permission@) by {
                    if before.contains(p) {
                        let k = choose|k: int| 0 <= k < before.len() && before[k] == p;
                        assert(now[k] == p);
                    }
                    assert(now[before.len() as int] == g.permission@);
                }
            }
        }
        i = i + 1;
    }
    let mut max_priority: i64 = 0;
    let mut j: usize = 0;
    while j < roles.len()
        invariant
            j <= roles@.len(),
            max_priority == top_priority(roles@.take(j as int)),
        decreases roles@.len() - j,
    {
        assert(roles@.take(j as int + 1).drop_last() =~= roles@.take(j as int));
        if j == 0 || roles[j].priority > max_priority {
            max_priority = roles[j].priority;
        }
        j = j + 1;
    }
    assert(roles@.take(roles@.len() as int) =~= roles@);
    let r = UserPermissions { roles, effective, max_priority };
    assert(r.granted() =~= granted_to(r.roles@, grants@));
    r
}

/// An admin is never refused for want of a permission.
pub proof fn admin_may_everything(p: UserPermissions, permission: Seq<char>)
    requires
        p.granted().contains(ADMIN@),
    ensures
        p.refusal(permission) is None,
{
}

/// One who holds a permission through some role is never refused for want of it.
pub proof fn granted_is_enough(p: UserPermissions, permission: Seq<char>)
    requires
        p.granted().contains(permission),
    ensures
        p.refusal(permission) is None,
{
}

/// The highest priority is that of one of the roles, and none is higher.
pub proof fn top_priority_is_greatest(roles: Seq<RoleRow>)
    requires
        roles.len() > 0,
    ensures
        exists|i: int|
            0 <= i < roles.len() && (#[trigger] roles[i]).priority == top_priority(roles),
        forall|i: int|
            0 <= i < roles.len() ==> (#[trigger] roles[i]).priority <= top_priority(roles),
    decreases roles.len(),
{
    if roles.len() == 1 {
        assert(roles[0].priority == top_priority(roles));
    } else {
        let rest = roles.drop_last();
        top_priority_is_greatest(rest);
        let k = choose|k: int|
            0 <= k < rest.len() && (#[trigger] rest[k]).priority == top_priority(rest);
        assert(roles[k] == rest[k]);
        assert(roles[roles.len() - 1] == roles.last());
        assert forall|i: int| 0 <= i < roles.len() implies (#[trigger] roles[i]).priority
            <= top_priority(roles) by {
            if i < rest.len() {
                assert(rest[i] == roles[i]);
            }
        }
    }
}

/// Whether the roles of someone give them the permission, or make them an admin.
pub open spec fn allows(p: UserPermissions, permission: Seq<char>) -> bool {
    exists|i: int|
        0 <= i < p.effective@.len() && ((#[trigger] p.effective@[i])@ == permission
            || p.effective@[i]@ == "admin"@)
}

/// A permission is held exactly where it is among those that the roles give, or where that of an
/// admin is; where it is not held the request is refused.
pub proof fn a_permission_is_held_or_refused(
    p: &UserPermissions,
    permission: &str,
    held: bool,
    r: Result<(), HubError>,
)
    requires
        call_ensures(UserPermissions::has, (p, permission), held),
        call_ensures(UserPermissions::require, (p, permission), r),
    ensures
        held <==> allows(*p, permission@),
        r is Ok <==> allows(*p, permission@),
        r matches Err(e) ==> e.status == 403 && e.message@ == "Missing permission: "@ + permission@,
{
    lemma_may_is_allowed(*p, permission@);
}

/// What the roles give is what may be done.
pub proof fn lemma_may_is_allowed(p: UserPermissions, permission: Seq<char>)
    ensures
        p.may(permission) <==> allows(p, permission),
        p.refusal(permission) is None <==> allows(p, permission),
        p.refusal(permission) matches Some(d) ==> d.status == 403,
{
    let t = texts(p.effective@);
    assert forall|i: int| 0 <= i < t.len() implies #[trigger] t[i] == p.effective@[i]@ by {}
    if p.may(permission) {
        let which = if p.granted().contains(ADMIN@) {
            ADMIN@
        } else {
            permission
        };
        assert(t.contains(which));
        let i: int = choose|i: int| 0 <= i < t.len() && t[i] == which;
        assert(p.effective@[i]@ == which);
    }
    if allows(p, permission) {
        let i: int = choose|i: int|
            0 <= i < p.effective@.len() && ((#[trigger] p.effective@[i])@ == permission
                || p.effective@[i]@ == "admin"@);
        assert(t[i] == p.effective@[i]@);
        assert(t.contains(t[i]));
    }
}

/// A role gives its members its permissions and no others, and someone ranks as high as the
/// highest of their roles; without a role they rank lowest.
pub proof fn roles_give_permissions_and_rank(
    roles: Vec<RoleRow>,
    grants: &Vec<RolePermission>,
    r: UserPermissions,
    i: int,
    j: int,
    k: int,
)
    requires
        call_ensures(user_permissions, (roles, grants), r),
    ensures
        0 <= i < roles@.len() && 0 <= j < grants@.len() && grants@[j].role_id@ == roles@[i].id@
            ==> texts(r.effective@).contains(grants@[j].permission@),
        0 <= k < r.effective@.len() ==> exists|a: int, b: int|
            0 <= a < roles@.len() && 0 <= b < grants@.len() && #[trigger] roles@[a].id@
                == #[trigger] grants@[b].role_id@ && grants@[b].permission@ == r.effective@[k]@,
        0 <= i < roles@.len() ==> roles@[i].priority <= r.max_priority,
        roles@.len() == 0 ==> r.max_priority == 0 && r.effective@.len() == 0,
        roles@.len() > 0 ==> exists|a: int|
            0 <= a < roles@.len() && (#[trigger] roles@[a]).priority == r.max_priority,
        r.roles == roles,
{
    let given = granted_to(roles@, grants@);
    if 0 <= i < roles@.len() && 0 <= j < grants@.len() && grants@[j].role_id@ == roles@[i].id@ {
        assert(has_role(roles@, grants@[j].role_id@));
        assert(given.contains(grants@[j].permission@));
        assert(r.granted().contains(grants@[j].permission@));
    }
    if r.effective@.len() > 0 {
        let n: int = if 0 <= k < r.effective@.len() {
            k
        } else {
            0
        };
        let p = r.effective@[n]@;
        assert(texts(r.effective@)[n] == p);
        assert(r.granted().contains(p));
        assert(given.contains(p));
        let b: int = choose|b: int|
            0 <= b < grants@.len() && (#[trigger] grants@[b]).permission@ == p && has_role(
                roles@,
                grants@[b].role_id@,
            );
        let a: int = choose|a: int|
            0 <= a < roles@.len() && (#[trigger] roles@[a]).id@ == grants@[b].role_id@;
        assert(roles@[a].id@ == grants@[b].role_id@);
    }
    if roles@.len() > 0 {
        top_priority_is_greatest(roles@);
    }
}

} // verus!
