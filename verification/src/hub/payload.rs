//! JSON values of events, as far as the hub looks into them.
use vstd::prelude::*;
use crate::text::{opt_text, same};

verus! {

/// A JSON value: a text, or anything else as its JSON text.
pub enum JsonValue {
    Text(String),
    Raw(String),
}

/// What a JSON value is.
pub ghost enum JsonView {
    Text(Seq<char>),
    Raw(Seq<char>),
}

impl View for JsonValue {
    type V = JsonView;

    open spec fn view(&self) -> JsonView {
        match self {
            JsonValue::Text(s) => JsonView::Text(s@),
            JsonValue::Raw(s) => JsonView::Raw(s@),
        }
    }
}

/// A member of a JSON object.
pub struct JsonField {
    pub key: String,
    pub value: JsonValue,
}

/// The payload of an event: an object with its members, or another value as its JSON text.
pub enum Payload {
    Object(Vec<JsonField>),
    Other(String),
}

/// Whether the object has the key.
pub open spec fn has_key(f: Seq<JsonField>, key: Seq<char>) -> bool {
    exists|i: int| 0 <= i < f.len() && (#[trigger] f[i]).key@ == key
}

/// The value under the key. Where a key stands more than once, the last one counts.
pub open spec fn value_of(f: Seq<JsonField>, key: Seq<char>) -> Option<JsonView>
    decreases f.len(),
{
    if f.len() == 0 {
        None
    } else if f.last().key@ == key {
        Some(f.last().value@)
    } else {
        value_of(f.drop_last(), key)
    }
}

/// A key that is not there has no value.
pub proof fn lemma_no_value(f: Seq<JsonField>, key: Seq<char>)
    requires
        !has_key(f, key),
    ensures
        value_of(f, key) is None,
    decreases f.len(),
{
    if f.len() > 0 {
        assert(f[f.len() - 1].key@ != key);
        assert forall|i: int| 0 <= i < f.drop_last().len() implies (#[trigger] f.drop_last()[i]).key@
            != key by {
            assert(f[i].key@ != key);
        }
        lemma_no_value(f.drop_last(), key);
    }
}

/// A key that is there has a value.
pub proof fn lemma_some_value(f: Seq<JsonField>, key: Seq<char>, i: int)
    requires
        0 <= i < f.len(),
        f[i].key@ == key,
    ensures
        value_of(f, key) is Some,
    decreases f.len(),
{
    if f.last().key@ != key {
        assert(f.drop_last()[i] == f[i]);
        lemma_some_value(f.drop_last(), key, i);
    }
}

/// A member that comes last decides over its key and over no other.
pub proof fn lemma_value_push(f: Seq<JsonField>, x: JsonField, key: Seq<char>)
    ensures
        value_of(f.push(x), key) == if x.key@ == key {
            Some(x.value@)
        } else {
            value_of(f, key)
        },
{
    assert(f.push(x).drop_last() =~= f);
}

/// Whether the object has the key.
pub fn holds_key(f: &Vec<JsonField>, key: &str) -> (r: bool)
    ensures
        r == has_key(f@, key@),
        r == (value_of(f@, key@) is Some),
{
    let mut i: usize = 0;
    while i < f.len()
        invariant
            i <= f@.len(),
            forall|k: int| 0 <= k < i ==> (#[trigger] f@[k]).key@ != key@,
        decreases f@.len() - i,
    {
        if same(f[i].key.as_str(), key) {
            proof {
                lemma_some_value(f@, key@, i as int);
            }
            return true;
        }
        i = i + 1;
    }
    proof {
        lemma_no_value(f@, key@);
    }
    false
}

/// A copy of the value.
pub fn copy_value(v: &JsonValue) -> (r: JsonValue)
    ensures
        r@ == v@,
{
    match v {
        JsonValue::Text(s) => JsonValue::Text(s.clone()),
        JsonValue::Raw(s) => JsonValue::Raw(s.clone()),
    }
}

/// The members of a payload; none where it is no object.
pub open spec fn members(p: Payload) -> Seq<JsonField> {
    match p {
        Payload::Object(f) => f@,
        Payload::Other(_) => Seq::empty(),
    }
}

/// Whether the two payloads say the same.
pub open spec fn same_payload(a: Payload, b: Payload) -> bool {
    match (a, b) {
        (Payload::Object(_), Payload::Object(_)) => forall|k: Seq<char>| #[trigger]
            value_of(members(a), k) == value_of(members(b), k),
        (Payload::Other(x), Payload::Other(y)) => x@ == y@,
        _ => false,
    }
}

/// A copy of the payload.
pub fn copy_payload(p: &Payload) -> (r: Payload)
    ensures
        same_payload(r, *p),
{
    match p {
        Payload::Other(s) => Payload::Other(s.clone()),
        Payload::Object(f) => {
            let mut out: Vec<JsonField> = Vec::new();
            let mut i: usize = 0;
            while i < f.len()
                invariant
                    i <= f@.len(),
                    forall|k: Seq<char>| #[trigger]
                        value_of(out@, k) == value_of(f@.take(i as int), k),
                decreases f@.len() - i,
            {
                let ghost before = out@;
                let copied = JsonField { key: f[i].key.clone(), value: copy_value(&f[i].value) };
                out.push(copied);
                proof {
                    assert(f@.take(i as int + 1) =~= f@.take(i as int).push(f@[i as int]));
                    assert forall|k: Seq<char>| #[trigger] value_of(out@, k) == value_of(
                        f@.take(i as int + 1),
                        k,
                    ) by {
                        lemma_value_push(before, copied, k);
                        lemma_value_push(f@.take(i as int), f@[i as int], k);
                    }
                }
                i = i + 1;
            }
            assert(f@.take(f@.len() as int) =~= f@);
            Payload::Object(out)
        },
    }
}

/// An event to be published: its kind, who did it, to whom, in which channel, and the rest.
pub struct HubEvent {
    pub event_type: String,
    pub actor: Option<String>,
    pub target: Option<String>,
    pub channel_id: Option<String>,
    pub payload: Payload,
}

/// An optional text as a JSON value: the text, or null.
pub open spec fn nullable_view(o: Option<Seq<char>>) -> JsonView {
    match o {
        Some(s) => JsonView::Text(s),
        None => JsonView::Raw("null"@),
    }
}

/// An optional text as a JSON value: the text, or null.
pub fn nullable(o: &Option<String>) -> (r: JsonValue)
    ensures
        r@ == nullable_view(opt_text(*o)),
{
    match o {
        Some(s) => JsonValue::Text(s.clone()),
        None => JsonValue::Raw("null".to_owned()),
    }
}

/// A member of a JSON object.
pub fn field(key: &str, value: JsonValue) -> (f: JsonField)
    ensures
        f.key@ == key@,
        f.value == value,
{
    JsonField { key: key.to_owned(), value }
}

/// Whether the event is of the kind, by the actor, in the channel, about no one else.
pub open spec fn concerns(
    e: HubEvent,
    event_type: Seq<char>,
    actor: Seq<char>,
    target: Option<Seq<char>>,
    channel: Option<Seq<char>>,
) -> bool {
    &&& e.event_type@ == event_type
    &&& opt_text(e.actor) == Some(actor)
    &&& opt_text(e.target) == target
    &&& opt_text(e.channel_id) == channel
}

/// Whether the payload is an object with no members.
pub open spec fn empty_object(p: Payload) -> bool {
    p matches Payload::Object(f) && f@.len() == 0
}

/// Whether the payload is an object with one member.
pub open spec fn one_member(p: Payload, key: Seq<char>, value: JsonView) -> bool {
    p matches Payload::Object(f) && f@.len() == 1 && f@[0].key@ == key && f@[0].value@ == value
}

/// Whether the payload is an object with two members.
pub open spec fn two_members(
    p: Payload,
    key: Seq<char>,
    value: JsonView,
    other: Seq<char>,
    other_value: JsonView,
) -> bool {
    p matches Payload::Object(f) && f@.len() == 2 && f@[0].key@ == key && f@[0].value@ == value
        && f@[1].key@ == other && f@[1].value@ == other_value
}

/// The members of an object, in order.
pub open spec fn member_views(f: Seq<JsonField>) -> Seq<(Seq<char>, JsonView)> {
    f.map_values(|x: JsonField| (x.key@, x.value@))
}

/// Whether the payload is an object with these members, in order.
pub open spec fn members_are(p: Payload, m: Seq<(Seq<char>, JsonView)>) -> bool {
    p matches Payload::Object(f) && member_views(f@) == m
}

/// The last member under a key is what stands under it.
pub proof fn the_last_member_counts(f: Seq<JsonField>, key: Seq<char>, i: int)
    requires
        0 <= i < f.len(),
        f[i].key@ == key,
        forall|j: int| i < j < f.len() ==> (#[trigger] f[j]).key@ != key,
    ensures
        value_of(f, key) == Some(f[i].value@),
    decreases f.len(),
{
    if i < f.len() - 1 {
        assert(f[f.len() - 1].key@ != key);
        assert forall|j: int| i < j < f.drop_last().len() implies (#[trigger] f.drop_last()[j]).key@
            != key by {
            assert(f.drop_last()[j] == f[j]);
        }
        the_last_member_counts(f.drop_last(), key, i);
    }
}

/// A copy says what the original says, under every key.
pub proof fn a_copy_says_the_same(p: &Payload, r: Payload, key: Seq<char>)
    requires
        call_ensures(copy_payload, (p,), r),
    ensures
        *p is Object <==> r is Object,
        value_of(members(r), key) == value_of(members(*p), key),
        *p matches Payload::Other(t) ==> (r matches Payload::Other(s) && s@ == t@),
{
    if *p is Object && r is Object {
        assert(value_of(members(*p), key) == value_of(members(r), key)
            || value_of(members(r), key) == value_of(members(*p), key));
    }
}

/// A text that is there is that text, and one that is not is null.
pub proof fn what_is_absent_is_null(o: &Option<String>, r: JsonValue, f: &Vec<JsonField>, k: &str, has: bool)
    requires
        call_ensures(nullable, (o,), r),
        call_ensures(holds_key, (f, k), has),
    ensures
        o matches Some(s) ==> (r matches JsonValue::Text(t) && t@ == s@),
        o is None ==> (r matches JsonValue::Raw(t) && t@ == "null"@),
        has <==> exists|i: int| 0 <= i < f@.len() && (#[trigger] f@[i]).key@ == k@,
{
}

} // verus!
