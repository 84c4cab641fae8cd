//! Who is in voice, where their packets come from, and to whom they go on.
use vstd::prelude::*;
use crate::hub::chat_models::VoiceParticipantInfo;
use crate::rows::lemma_kept;
use crate::table::{pair, Number, Pair, Table};
use crate::text::{contains_text, opt_text, same, texts};

verus! {

/// The voice state of the hub: the UDP port of each member of each channel, and the other way
/// round the member behind each port. Clients send from the loopback address, so that the
/// port stands for the whole address.
pub struct Voice {
    pub members: Table<Pair, u16>,
    pub addresses: Table<Number, Pair>,
}

impl Voice {
    pub open spec fn wf(self) -> bool {
        self.members.wf() && self.addresses.wf()
    }

    /// The port of each member, under channel and user.
    pub open spec fn ports(self) -> Map<(Seq<char>, Seq<char>), u16> {
        self.members@
    }

    /// The member behind each port.
    pub open spec fn behind(self) -> Map<u64, (Seq<char>, Seq<char>)> {
        self.addresses@.map_values(|p: Pair| p@)
    }

    /// Whether the two ways round agree.
    pub open spec fn in_sync(self) -> bool {
        synced(self.ports(), self.behind())
    }

    /// No one in voice.
    pub fn new() -> (v: Voice)
        ensures
            v.wf(),
            v.ports() == Map::<(Seq<char>, Seq<char>), u16>::empty(),
            v.behind() == Map::<u64, (Seq<char>, Seq<char>)>::empty(),
            v.members.keys() == Seq::<(Seq<char>, Seq<char>)>::empty(),
            v.in_sync(),
    {
        let v = Voice { members: Table::new(), addresses: Table::new() };
        assert(v.behind() =~= Map::<u64, (Seq<char>, Seq<char>)>::empty());
        v
    }

    /// The user is in the channel and sends from the port.
    pub fn join(&mut self, channel_id: &str, public_key: &str, udp_port: u16)
        requires
            old(self).wf(),
        ensures
            final(self).wf(),
            final(self).ports() == old(self).ports().insert((channel_id@, public_key@), udp_port),
            final(self).behind() == old(self).behind().insert(
                udp_port as u64,
                (channel_id@, public_key@),
            ),
            old(self).in_sync() && joins_afresh(
                old(self).ports(),
                old(self).behind(),
                (channel_id@, public_key@),
                udp_port,
            ) ==> final(self).in_sync(),
    {
        self.members.insert(pair(channel_id, public_key), udp_port);
        self.addresses.insert(Number { value: udp_port as u64 }, pair(channel_id, public_key));
        assert(self.behind() =~= old(self).behind().insert(
            udp_port as u64,
            (channel_id@, public_key@),
        ));
        proof {
            let who = (channel_id@, public_key@);
            if old(self).in_sync() && joins_afresh(
                old(self).ports(),
                old(self).behind(),
                who,
                udp_port,
            ) {
                join_keeps_sync(old(self).ports(), old(self).behind(), who, udp_port);
            }
        }
    }

    /// The user is out of the channel, and their port is free.
    pub fn leave(&mut self, channel_id: &str, public_key: &str)
        requires
            old(self).wf(),
        ensures
            final(self).wf(),
            final(self).ports() == old(self).ports().remove((channel_id@, public_key@)),
            final(self).behind() == if old(self).ports().dom().contains(
                (channel_id@, public_key@),
            ) {
                old(self).behind().remove(old(self).ports()[(channel_id@, public_key@)] as u64)
            } else {
                old(self).behind()
            },
            old(self).in_sync() ==> final(self).in_sync(),
    {
        proof {
            if old(self).in_sync() {
                leave_keeps_sync(
                    old(self).ports(),
                    old(self).behind(),
                    (channel_id@, public_key@),
                );
            }
        }
        let key = pair(channel_id, public_key);
        match self.members.remove(&key) {
            Some(port) => {
                self.addresses.remove(&Number { value: port as u64 });
                assert(self.behind() =~= old(self).behind().remove(port as u64));
            },
            None => {},
        }
    }

    /// The members of a channel, each once, in the order in which they came.
    pub fn participants(&self, channel_id: &str) -> (r: Vec<String>)
        requires
            self.wf(),
        ensures
            texts(r@) == members_in(self.members.keys(), channel_id@),
    {
        let mut out: Vec<String> = Vec::new();
        let mut i: usize = 0;
        assert(self.members.keys().take(0) =~= Seq::empty());
        assert(texts(out@) =~= Seq::<Seq<char>>::empty());
        while i < self.members.len()
            invariant
                i <= self.members.keys().len(),
                texts(out@) == members_in(self.members.keys().take(i as int), channel_id@),
            decreases self.members.keys().len() - i,
        {
            let k = self.members.key_at(i);
            assert(self.members.keys().take(i as int + 1).drop_last()
                =~= self.members.keys().take(i as int));
            if same(k.first.as_str(), channel_id) {
                let ghost before = texts(out@);
                out.push(k.second.clone());
                assert(texts(out@) =~= before.push(k.second@));
            }
            i = i + 1;
        }
        assert(self.members.keys().take(self.members.keys().len() as int)
            =~= self.members.keys());
        out
    }

    /// The channels in which someone is, each once, and how many are in it.
    pub fn populations(&self) -> (r: Vec<(String, usize)>)
        requires
            self.wf(),
        ensures
            forall|i: int|
                0 <= i < r@.len() ==> (#[trigger] r@[i]).1 == members_in(
                    self.members.keys(),
                    r@[i].0@,
                ).len() && r@[i].1 > 0,
            forall|i: int, j: int|
                0 <= i < j < r@.len() ==> (#[trigger] r@[i]).0@ != (#[trigger] r@[j]).0@,
            forall|c: Seq<char>|
                #![trigger members_in(self.members.keys(), c)]
                members_in(self.members.keys(), c).len() > 0 ==> exists|i: int|
                    0 <= i < r@.len() && (#[trigger] r@[i]).0@ == c,
    {
        let ghost keys = self.members.keys();
        let mut out: Vec<(String, usize)> = Vec::new();
        let mut i: usize = 0;
        while i < self.members.len()
            invariant
                self.wf(),
                keys == self.members.keys(),
                i <= keys.len(),
                forall|m: int|
                    0 <= m < out@.len() ==> (#[trigger] out@[m]).1 == members_in(
                        keys,
                        out@[m].0@,
                    ).len() && out@[m].1 > 0,
                forall|a: int, b: int|
                    0 <= a < b < out@.len() ==> (#[trigger] out@[a]).0@ != (#[trigger] out@[b]).0@,
                forall|k: int|
                    #![trigger keys[k]]
                    0 <= k < i ==> exists|m: int|
                        0 <= m < out@.len() && (#[trigger] out@[m]).0@ == keys[k].0,
            decreases keys.len() - i,
        {
            let k = self.members.key_at(i);
            let mut known = false;
            let mut j: usize = 0;
            while j < out.len() && !known
                invariant
                    j <= out@.len(),
                    known ==> exists|m: int| 0 <= m < out@.len() && (#[trigger] out@[m]).0@ == k.first@,
                    !known ==> forall|m: int| 0 <= m < j ==> (#[trigger] out@[m]).0@ != k.first@,
                decreases out@.len() - j,
            {
                if same(out[j].0.as_str(), k.first.as_str()) {
                    known = true;
                }
                j = j + 1;
            }
            if !known {
                let there = self.participants(k.first.as_str());
                let ghost before = out@;
                proof {
                    lemma_members_in(keys, i as int);
                    assert(texts(there@).len() == there@.len());
                }
                out.push((k.first.clone(), there.len()));
                proof {
                    assert(keys[i as int].0 == k.first@);
                    assert(out@[before.len() as int].0@ == keys[i as int].0);
                    assert forall|n: int|
                        #![trigger keys[n]]
                        0 <= n < i + 1 implies exists|m: int|
                        0 <= m < out@.len() && (#[trigger] out@[m]).0@ == keys[n].0 by {
                        if n < i {
                            let m = choose|m: int|
                                0 <= m < before.len() && (#[trigger] before[m]).0@ == keys[n].0;
                            assert(out@[m] == before[m]);
                        }
                    }
                }
            }
            i = i + 1;
        }
        proof {
            assert forall|c: Seq<char>|
                #![trigger members_in(keys, c)]
                members_in(keys, c).len() > 0 implies exists|m: int|
                0 <= m < out@.len() && (#[trigger] out@[m]).0@ == c by {
                let n = lemma_some_member(keys, c);
                assert(keys[n].0 == c);
            }
        }
        out
    }

    /// Everyone who is in voice somewhere, each once.
    pub fn active_users(&self) -> (r: Vec<String>)
        requires
            self.wf(),
        ensures
            texts(r@).no_duplicates(),
            forall|u: Seq<char>| #[trigger]
                texts(r@).contains(u) <==> in_voice(self.ports(), u),
    {
        let ghost keys = self.members.keys();
        let mut out: Vec<String> = Vec::new();
        let mut i: usize = 0;
        while i < self.members.len()
            invariant
                self.wf(),
                keys == self.members.keys(),
                i <= keys.len(),
                texts(out@).no_duplicates(),
                forall|u: Seq<char>| #[trigger]
                    texts(out@).contains(u) <==> exists|k: int|
                        0 <= k < i && (#[trigger] keys[k]).1 == u,
            decreases keys.len() - i,
        {
            let k = self.members.key_at(i);
            let ghost before = texts(out@);
            if !contains_text(&out, k.second.as_str()) {
                out.push(k.second.clone());
                proof {
                    let now = texts(out@);
                    assert(now =~= before.push(k.second@));
                    assert forall|u: Seq<char>| #[trigger] now.contains(u) <==> (before.contains(u)
                        || u == k.second@) by {
                        if before.contains(u) {
                            let m = choose|m: int| 0 <= m < before.len() && before[m] == u;
                            assert(now[m] == u);
                        }
                        assert(now[before.len() as int] == k.second@);
                    }
                }
            }
            assert(keys[i as int].1 == k.second@);
            i = i + 1;
        }
        proof {
            self.members.lemma_keys();
            assert forall|u: Seq<char>| #[trigger] texts(out@).contains(u) <==> exists|c: Seq<char>|
                #[trigger] self.ports().dom().contains((c, u)) by {
                if texts(out@).contains(u) {
                    let k = choose|k: int| 0 <= k < keys.len() && (#[trigger] keys[k]).1 == u;
                    assert(keys.contains(keys[k]));
                    assert(self.ports().dom().contains((keys[k].0, u)));
                }
                if exists|c: Seq<char>| #[trigger] self.ports().dom().contains((c, u)) {
                    let c = choose|c: Seq<char>| #[trigger] self.ports().dom().contains((c, u));
                    assert(keys.contains((c, u)));
                    let k = choose|k: int| 0 <= k < keys.len() && keys[k] == (c, u);
                    assert(keys[k].1 == u);
                }
            }
        }
        out
    }

    /// Where a packet goes on to: the ports of the others in the channel of the sender, in the
    /// order in which they joined. Who is in no channel reaches no one; who is in several
    /// reaches the one that they joined first.
    pub fn relay_targets(&self, from_port: u16) -> (r: Vec<u16>)
        requires
            self.wf(),
        ensures
            r@ == match self.channel_of_port(from_port) {
                Some(c) => ports_in(self.ports(), self.members.keys(), c).filter(
                    is_not_port(from_port),
                ),
                None => Seq::empty(),
            },
    {
        let ghost keys = self.members.keys();
        let mut channel: Option<String> = None;
        let mut i: usize = 0;
        while i < self.members.len() && channel.is_none()
            invariant
                self.wf(),
                keys == self.members.keys(),
                i <= keys.len(),
                match channel {
                    Some(c) => first_from(self.ports(), keys, from_port, 0) == Some(c@),
                    None => first_from(self.ports(), keys, from_port, 0) == first_from(
                        self.ports(),
                        keys,
                        from_port,
                        i as int,
                    ),
                },
            decreases keys.len() - i,
        {
            if *self.members.value_at(i) == from_port {
                channel = Some(self.members.key_at(i).first.clone());
            }
            i = i + 1;
        }
        match channel {
            Some(c) => self.others_in(c.as_str(), from_port),
            None => Vec::new(),
        }
    }

    fn others_in(&self, channel_id: &str, from_port: u16) -> (r: Vec<u16>)
        requires
            self.wf(),
        ensures
            r@ == ports_in(self.ports(), self.members.keys(), channel_id@).filter(
                is_not_port(from_port),
            ),
    {
        let ghost keys = self.members.keys();
        let mut out: Vec<u16> = Vec::new();
        let mut j: usize = 0;
        reveal(Seq::filter);
        assert(keys.take(0) =~= Seq::empty());
        assert(ports_in(self.ports(), keys.take(0), channel_id@) =~= Seq::empty());
        while j < self.members.len()
            invariant
                self.wf(),
                keys == self.members.keys(),
                j <= keys.len(),
                out@ == ports_in(self.ports(), keys.take(j as int), channel_id@).filter(
                    is_not_port(from_port),
                ),
            decreases keys.len() - j,
        {
            let k = self.members.key_at(j);
            let port: u16 = *self.members.value_at(j);
            proof {
                reveal(Seq::filter);
                let next = keys.take(j as int + 1);
                assert(next.drop_last() =~= keys.take(j as int));
                assert(next.last() == k@);
                if k@.0 == channel_id@ {
                    let before = ports_in(self.ports(), keys.take(j as int), channel_id@);
                    assert(members_in(next, channel_id@) == members_in(
                        keys.take(j as int),
                        channel_id@,
                    ).push(k@.1));
                    assert(ports_in(self.ports(), next, channel_id@) =~= before.push(port));
                    assert(before.push(port).drop_last() =~= before);
                }
            }
            if same(k.first.as_str(), channel_id) && port != from_port {
                out.push(port);
            }
            j = j + 1;
        }
        assert(keys.take(keys.len() as int) =~= keys);
        out
    }

    /// The first channel in which someone sends from the port.
    pub open spec fn channel_of_port(self, port: u16) -> Option<Seq<char>> {
        first_from(self.ports(), self.members.keys(), port, 0)
    }
}

/// Whether the user is in voice in some channel.
pub open spec fn in_voice(ports: Map<(Seq<char>, Seq<char>), u16>, user: Seq<char>) -> bool {
    exists|c: Seq<char>| #[trigger] ports.dom().contains((c, user))
}

/// The ports of the users of one channel, in order.
pub open spec fn ports_in(
    ports: Map<(Seq<char>, Seq<char>), u16>,
    keys: Seq<(Seq<char>, Seq<char>)>,
    channel: Seq<char>,
) -> Seq<u16> {
    members_in(keys, channel).map_values(|u: Seq<char>| ports[(channel, u)])
}

/// The other ports, as a condition.
pub open spec fn is_not_port(port: u16) -> spec_fn(u16) -> bool {
    |p: u16| p != port
}

/// The channel of the first entry, from a place on, that has the port.
pub open spec fn first_from(
    ports: Map<(Seq<char>, Seq<char>), u16>,
    keys: Seq<(Seq<char>, Seq<char>)>,
    port: u16,
    i: int,
) -> Option<Seq<char>>
    decreases keys.len() - i,
{
    if i < 0 || i >= keys.len() {
        None
    } else if ports[keys[i]] == port {
        Some(keys[i].0)
    } else {
        first_from(ports, keys, port, i + 1)
    }
}

/// The users of one channel, in order.
pub open spec fn members_in(keys: Seq<(Seq<char>, Seq<char>)>, channel: Seq<char>) -> Seq<Seq<char>>
    decreases keys.len(),
{
    if keys.len() == 0 {
        Seq::empty()
    } else if keys.last().0 == channel {
        members_in(keys.drop_last(), channel).push(keys.last().1)
    } else {
        members_in(keys.drop_last(), channel)
    }
}

/// Someone stands among the users of their channel.
proof fn lemma_members_in(keys: Seq<(Seq<char>, Seq<char>)>, i: int)
    requires
        0 <= i < keys.len(),
    ensures
        members_in(keys, keys[i].0).contains(keys[i].1),
        members_in(keys, keys[i].0).len() > 0,
    decreases keys.len(),
{
    let c = keys[i].0;
    let m = members_in(keys, c);
    if i == keys.len() - 1 {
        assert(m[m.len() - 1] == keys[i].1);
    } else {
        let rest = keys.drop_last();
        assert(rest[i] == keys[i]);
        lemma_members_in(rest, i);
        let r = members_in(rest, c);
        let k = choose|k: int| 0 <= k < r.len() && r[k] == keys[i].1;
        assert(m[k] == keys[i].1);
    }
}

/// Where a channel has users, some entry is one of it.
proof fn lemma_some_member(keys: Seq<(Seq<char>, Seq<char>)>, c: Seq<char>) -> (i: int)
    requires
        members_in(keys, c).len() > 0,
    ensures
        0 <= i < keys.len(),
        keys[i].0 == c,
    decreases keys.len(),
{
    if keys.last().0 == c {
        keys.len() - 1
    } else {
        lemma_some_member(keys.drop_last(), c)
    }
}

/// The users of a channel are those who have a port in it.
pub proof fn participants_are_those_in_voice(v: Voice, channel: Seq<char>, user: Seq<char>)
    requires
        v.wf(),
    ensures
        members_in(v.members.keys(), channel).contains(user) <==> v.ports().dom().contains(
            (channel, user),
        ),
{
    v.members.lemma_keys();
    let keys = v.members.keys();
    if v.ports().dom().contains((channel, user)) {
        assert(keys.contains((channel, user)));
        let i = choose|i: int| 0 <= i < keys.len() && keys[i] == (channel, user);
        lemma_members_in(keys, i);
    }
    if members_in(keys, channel).contains(user) {
        lemma_member_key(keys, channel, user);
    }
}

proof fn lemma_member_key(keys: Seq<(Seq<char>, Seq<char>)>, c: Seq<char>, u: Seq<char>)
    requires
        members_in(keys, c).contains(u),
    ensures
        keys.contains((c, u)),
    decreases keys.len(),
{
    let m = members_in(keys, c);
    let k = choose|k: int| 0 <= k < m.len() && m[k] == u;
    if keys.last().0 == c && k == m.len() - 1 {
        assert(keys[keys.len() - 1] == (c, u));
    } else {
        let rest = keys.drop_last();
        assert(members_in(rest, c)[k] == u);
        lemma_member_key(rest, c, u);
        let i = choose|i: int| 0 <= i < rest.len() && rest[i] == (c, u);
        assert(keys[i] == (c, u));
    }
}

/// Whether the ports of the members and the members behind the ports agree.
pub open spec fn synced(
    ports: Map<(Seq<char>, Seq<char>), u16>,
    behind: Map<u64, (Seq<char>, Seq<char>)>,
) -> bool {
    &&& forall|k: (Seq<char>, Seq<char>)| #[trigger]
        ports.dom().contains(k) ==> behind.dom().contains(ports[k] as u64) && behind[ports[k] as u64]
            == k
    &&& forall|a: u64| #[trigger]
        behind.dom().contains(a) ==> ports.dom().contains(behind[a]) && ports[behind[a]] as u64 == a
}

/// Whether the user is not in the channel from another port, and no one else sends from the
/// port.
pub open spec fn joins_afresh(
    ports: Map<(Seq<char>, Seq<char>), u16>,
    behind: Map<u64, (Seq<char>, Seq<char>)>,
    who: (Seq<char>, Seq<char>),
    port: u16,
) -> bool {
    &&& ports.dom().contains(who) ==> ports[who] == port
    &&& behind.dom().contains(port as u64) ==> behind[port as u64] == who
}

/// Joining keeps the two ways round in agreement, where the user is not in the channel from
/// another port and no one else sends from the port.
pub proof fn join_keeps_sync(
    ports: Map<(Seq<char>, Seq<char>), u16>,
    behind: Map<u64, (Seq<char>, Seq<char>)>,
    who: (Seq<char>, Seq<char>),
    port: u16,
)
    requires
        synced(ports, behind),
        joins_afresh(ports, behind, who, port),
    ensures
        synced(ports.insert(who, port), behind.insert(port as u64, who)),
{
    let p = ports.insert(who, port);
    let b = behind.insert(port as u64, who);
    assert forall|k: (Seq<char>, Seq<char>)| #[trigger] p.dom().contains(k) implies b.dom().contains(
        p[k] as u64,
    ) && b[p[k] as u64] == k by {
        if k != who {
            assert(ports.dom().contains(k));
        }
    }
    assert forall|a: u64| #[trigger] b.dom().contains(a) implies p.dom().contains(b[a])
        && p[b[a]] as u64 == a by {
        if a != port as u64 {
            assert(behind.dom().contains(a));
        }
    }
}

/// Leaving keeps the two ways round in agreement.
pub proof fn leave_keeps_sync(
    ports: Map<(Seq<char>, Seq<char>), u16>,
    behind: Map<u64, (Seq<char>, Seq<char>)>,
    who: (Seq<char>, Seq<char>),
)
    requires
        synced(ports, behind),
    ensures
        synced(
            ports.remove(who),
            if ports.dom().contains(who) {
                behind.remove(ports[who] as u64)
            } else {
                behind
            },
        ),
{
    let p = ports.remove(who);
    let b = if ports.dom().contains(who) {
        behind.remove(ports[who] as u64)
    } else {
        behind
    };
    assert forall|k: (Seq<char>, Seq<char>)| #[trigger] p.dom().contains(k) implies b.dom().contains(
        p[k] as u64,
    ) && b[p[k] as u64] == k by {
        assert(ports.dom().contains(k));
    }
    assert forall|a: u64| #[trigger] b.dom().contains(a) implies p.dom().contains(b[a])
        && p[b[a]] as u64 == a by {
        assert(behind.dom().contains(a));
    }
}

/// Leaving a channel that was just joined, from a free port, undoes the joining.
pub proof fn leave_undoes_join(
    ports: Map<(Seq<char>, Seq<char>), u16>,
    behind: Map<u64, (Seq<char>, Seq<char>)>,
    who: (Seq<char>, Seq<char>),
    port: u16,
)
    requires
        !ports.dom().contains(who),
        !behind.dom().contains(port as u64),
    ensures
        ports.insert(who, port).remove(who) == ports,
        behind.insert(port as u64, who).remove(port as u64) == behind,
{
    assert(ports.insert(who, port).remove(who) =~= ports);
    assert(behind.insert(port as u64, who).remove(port as u64) =~= behind);
}

/// The display name of a user.
pub struct UserName {
    pub public_key: String,
    pub display_name: Option<String>,
}

/// The display name that the rows give to the user; none where no row is theirs.
pub open spec fn name_in(names: Seq<UserName>, key: Seq<char>) -> Option<Seq<char>>
    decreases names.len(),
{
    if names.len() == 0 {
        None
    } else if names[0].public_key@ == key {
        opt_text(names[0].display_name)
    } else {
        name_in(names.skip(1), key)
    }
}

/// The display name that the rows give to the user; none where no row is theirs.
pub fn display_name(names: &Vec<UserName>, key: &str) -> (r: Option<String>)
    ensures
        opt_text(r) == name_in(names@, key@),
{
    let mut i: usize = 0;
    assert(names@.skip(0) =~= names@);
    while i < names.len()
        invariant
            i <= names@.len(),
            name_in(names@, key@) == name_in(names@.skip(i as int), key@),
        decreases names@.len() - i,
    {
        assert(names@.skip(i as int).skip(1) =~= names@.skip(i as int + 1));
        if same(names[i].public_key.as_str(), key) {
            return names[i].display_name.clone();
        }
        i = i + 1;
    }
    None
}

/// Whether the list shows exactly these users, in this order, each with their name.
pub open spec fn introduces(
    list: Seq<VoiceParticipantInfo>,
    users: Seq<Seq<char>>,
    names: Seq<UserName>,
) -> bool {
    &&& list.len() == users.len()
    &&& forall|i: int|
        0 <= i < list.len() ==> (#[trigger] list[i]).public_key@ == users[i] && opt_text(
            list[i].display_name,
        ) == name_in(names, users[i])
}

/// Those in the voice channel, with their names.
pub fn get_voice_participants(voice: &Voice, channel_id: &str, names: &Vec<UserName>) -> (r: Vec<
    VoiceParticipantInfo,
>)
    requires
        voice.wf(),
    ensures
        introduces(r@, members_in(voice.members.keys(), channel_id@), names@),
{
    let users = voice.participants(channel_id);
    let mut out: Vec<VoiceParticipantInfo> = Vec::new();
    let mut i: usize = 0;
    while i < users.len()
        invariant
            i <= users@.len(),
            out@.len() == i,
            forall|k: int|
                0 <= k < i ==> (#[trigger] out@[k]).public_key@ == texts(users@)[k] && opt_text(
                    out@[k].display_name,
                ) == name_in(names@, texts(users@)[k]),
        decreases users@.len() - i,
    {
        out.push(
            VoiceParticipantInfo {
                public_key: users[i].clone(),
                display_name: display_name(names, users[i].as_str()),
            },
        );
        i = i + 1;
    }
    out
}

/// One who joins a voice channel is among those in it, under their port, and one who leaves is
/// not; no one else comes or goes by it.
pub proof fn joining_and_leaving_move_one_user(
    v: &mut Voice,
    channel: &str,
    key: &str,
    port: u16,
    joined: (),
    w: &mut Voice,
    left: (),
    k: (Seq<char>, Seq<char>),
)
    requires
        call_ensures(Voice::join, (v, channel, key, port), joined),
        *old(w) == *final(v),
        call_ensures(Voice::leave, (w, channel, key), left),
    ensures
        final(v).ports().dom().contains((channel@, key@)),
        final(v).ports()[(channel@, key@)] == port,
        final(v).behind().dom().contains(port as u64),
        final(v).behind()[port as u64] == (channel@, key@),
        !final(w).ports().dom().contains((channel@, key@)),
        !final(w).behind().dom().contains(port as u64),
        k != (channel@, key@) ==> (final(v).ports().dom().contains(k) <==> old(v).ports().dom().contains(k)),
        k != (channel@, key@) ==> (final(w).ports().dom().contains(k) <==> old(v).ports().dom().contains(k)),
        k != (channel@, key@) && old(v).ports().dom().contains(k) ==> final(w).ports()[k] == old(v).ports()[k],
{
}

/// Those in a voice channel are listed, each with the name that they have.
pub proof fn participants_are_listed_with_their_names(
    v: &Voice,
    channel: &str,
    names: &Vec<UserName>,
    list: Vec<VoiceParticipantInfo>,
    keys: Vec<String>,
    user: Seq<char>,
    i: int,
    j: int,
)
    requires
        v.wf(),
        call_ensures(get_voice_participants, (v, channel, names), list),
        call_ensures(Voice::participants, (v, channel), keys),
    ensures
        texts(keys@).contains(user) <==> v.ports().dom().contains((channel@, user)),
        list@.len() == keys@.len(),
        0 <= i < list@.len() ==> list@[i].public_key@ == keys@[i]@,
        0 <= i < list@.len() && 0 <= j < names@.len() && names@[j].public_key@
            == list@[i].public_key@ && (forall|m: int|
            0 <= m < j ==> (#[trigger] names@[m]).public_key@ != list@[i].public_key@) ==> opt_text(
            list@[i].display_name,
        ) == opt_text(names@[j].display_name),
        0 <= i < list@.len() && (forall|m: int|
            0 <= m < names@.len() ==> (#[trigger] names@[m]).public_key@ != list@[i].public_key@)
            ==> list@[i].display_name is None,
{
    participants_are_those_in_voice(*v, channel@, user);
    assert(texts(keys@).len() == keys@.len());
    if 0 <= i < list@.len() {
        assert(texts(keys@)[i] == keys@[i]@);
        let key = list@[i].public_key@;
        if 0 <= j < names@.len() && names@[j].public_key@ == key && (forall|m: int|
            0 <= m < j ==> (#[trigger] names@[m]).public_key@ != key) {
            lemma_name_found(names@, key, j);
        }
        if forall|m: int|
            0 <= m < names@.len() ==> (#[trigger] names@[m]).public_key@ != key {
            lemma_name_missing(names@, key);
        }
    }
}

/// The first row of a user gives their name.
proof fn lemma_name_found(names: Seq<UserName>, key: Seq<char>, j: int)
    requires
        0 <= j < names.len(),
        names[j].public_key@ == key,
        forall|m: int| 0 <= m < j ==> (#[trigger] names[m]).public_key@ != key,
    ensures
        name_in(names, key) == opt_text(names[j].display_name),
    decreases j,
{
    if j > 0 {
        assert(names[0].public_key@ != key);
        assert forall|m: int| 0 <= m < j - 1 implies (#[trigger] names.skip(1)[m]).public_key@
            != key by {
            assert(names.skip(1)[m] == names[m + 1]);
        }
        assert(names.skip(1)[j - 1] == names[j]);
        lemma_name_found(names.skip(1), key, j - 1);
    }
}

/// Who has no row has no name.
proof fn lemma_name_missing(names: Seq<UserName>, key: Seq<char>)
    requires
        forall|m: int| 0 <= m < names.len() ==> (#[trigger] names[m]).public_key@ != key,
    ensures
        name_in(names, key) is None,
    decreases names.len(),
{
    if names.len() > 0 {
        assert(names[0].public_key@ != key);
        assert forall|m: int| 0 <= m < names.skip(1).len() implies (#[trigger] names.skip(
            1,
        )[m]).public_key@ != key by {
            assert(names.skip(1)[m] == names[m + 1]);
        }
        lemma_name_missing(names.skip(1), key);
    }
}

/// A name that is looked up is that of the first row of the user, and no one else's.
pub proof fn a_name_is_the_users_own(names: &Vec<UserName>, key: &str, r: Option<String>, j: int)
    requires
        call_ensures(display_name, (names, key), r),
        forall|m: int| 0 <= m < j && m < names@.len() ==> (#[trigger] names@[m]).public_key@ != key@,
    ensures
        0 <= j < names@.len() && names@[j].public_key@ == key@ ==> opt_text(r) == opt_text(
            names@[j].display_name,
        ),
        j >= names@.len() ==> r is None,
{
    if 0 <= j < names@.len() && names@[j].public_key@ == key@ {
        lemma_name_found(names@, key@, j);
    }
    if j >= names@.len() {
        lemma_name_missing(names@, key@);
    }
}

/// A packet goes on to every other port in the channel of its sender, never back, and to no
/// other channel, as long as each port sends in one channel only.
pub proof fn packets_reach_the_others_in_the_channel(
    v: &Voice,
    port: u16,
    r: Vec<u16>,
    channel: Seq<char>,
    sender: Seq<char>,
    target: u16,
)
    requires
        v.wf(),
        call_ensures(Voice::relay_targets, (v, port), r),
        v.ports().dom().contains((channel, sender)),
        v.ports()[(channel, sender)] == port,
        forall|k: (Seq<char>, Seq<char>)| #[trigger]
            v.ports().dom().contains(k) && v.ports()[k] == port ==> k.0 == channel,
    ensures
        !r@.contains(port),
        r@.contains(target) <==> target != port && exists|u: Seq<char>| #[trigger]
            v.ports().dom().contains((channel, u)) && v.ports()[(channel, u)] == target,
{
    let keys = v.members.keys();
    v.members.lemma_keys();
    assert(keys.contains((channel, sender)));
    let i: int = choose|i: int| 0 <= i < keys.len() && keys[i] == (channel, sender);
    lemma_first_from(v.ports(), keys, port, 0, i);
    let found = first_from(v.ports(), keys, port, 0);
    assert(found == Some(channel)) by {
        let m: int = lemma_from_witness(v.ports(), keys, port, 0);
        assert(keys.contains(keys[m]));
    }
    let all = ports_in(v.ports(), keys, channel);
    let users = members_in(keys, channel);
    lemma_kept(all, is_not_port(port), port);
    lemma_kept(all, is_not_port(port), target);
    if all.contains(target) {
        let m: int = choose|m: int| 0 <= m < all.len() && all[m] == target;
        assert(users.contains(users[m]));
        participants_are_those_in_voice(*v, channel, users[m]);
    }
    if exists|u: Seq<char>| #[trigger]
        v.ports().dom().contains((channel, u)) && v.ports()[(channel, u)] == target {
        let u = choose|u: Seq<char>| #[trigger]
            v.ports().dom().contains((channel, u)) && v.ports()[(channel, u)] == target;
        participants_are_those_in_voice(*v, channel, u);
        let m: int = choose|m: int| 0 <= m < users.len() && users[m] == u;
        assert(all[m] == target);
    }
}

/// A packet from a port at which no one is in voice goes nowhere.
pub proof fn packets_of_strangers_go_nowhere(v: &Voice, port: u16, r: Vec<u16>)
    requires
        v.wf(),
        call_ensures(Voice::relay_targets, (v, port), r),
        forall|k: (Seq<char>, Seq<char>)| #[trigger]
            v.ports().dom().contains(k) ==> v.ports()[k] != port,
    ensures
        r@.len() == 0,
{
    v.members.lemma_keys();
    if first_from(v.ports(), v.members.keys(), port, 0) is Some {
        let m: int = lemma_from_witness(v.ports(), v.members.keys(), port, 0);
        assert(v.members.keys().contains(v.members.keys()[m]));
    }
}

/// Where an entry from a place on has the port, one is found.
proof fn lemma_first_from(
    ports: Map<(Seq<char>, Seq<char>), u16>,
    keys: Seq<(Seq<char>, Seq<char>)>,
    port: u16,
    from: int,
    i: int,
)
    requires
        0 <= from <= i < keys.len(),
        ports[keys[i]] == port,
    ensures
        first_from(ports, keys, port, from) is Some,
    decreases i - from,
{
    if ports[keys[from]] != port {
        lemma_first_from(ports, keys, port, from + 1, i);
    }
}

/// What is found is the channel of an entry that has the port.
proof fn lemma_from_witness(
    ports: Map<(Seq<char>, Seq<char>), u16>,
    keys: Seq<(Seq<char>, Seq<char>)>,
    port: u16,
    from: int,
) -> (i: int)
    requires
        0 <= from,
        first_from(ports, keys, port, from) is Some,
    ensures
        from <= i < keys.len(),
        ports[keys[i]] == port,
        first_from(ports, keys, port, from) == Some(keys[i].0),
    decreases keys.len() - from,
{
    if ports[keys[from]] == port {
        from
    } else {
        lemma_from_witness(ports, keys, port, from + 1)
    }
}

} // verus!
