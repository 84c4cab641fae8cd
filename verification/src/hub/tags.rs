//! The tags that a hub gives itself.
use vstd::prelude::*;
use crate::codec::{json_of_strings, strings_from_json, strings_of_json, strings_to_json};
use crate::hub::permissions::{allows, lemma_may_is_allowed, UserPermissions, ADMIN};
use crate::hub::{hub_refusal, refuse, refuse_text, refused, HubError, HubRefusal};
use crate::text::{
    ascii_lower, chars_of, concat3, contains_text, is_text, lowered, opt_text, same, texts, to_lowercase, trim,
    trimmed,
};
use vstd::utf8::{encode_utf8, is_ascii_chars};

verus! {

/// The most tags that a hub may give itself.
pub const MAX_TAGS: usize = 12;

pub struct TagsResponse {
    pub tags: Vec<String>,
}

pub struct PatchTagsRequest {
    pub tags: Vec<String>,
}

/// Whether the tag is a word that only others may say of a hub.
pub open spec fn reserved(t: Seq<char>) -> bool {
    t == "verified"@ || t == "certified"@ || t == "official"@ || t == "partner"@ || t == "admin"@
}

fn is_reserved(t: &str) -> (r: bool)
    ensures
        r == reserved(t@),
{
    same(t, "verified") || same(t, "certified") || same(t, "official") || same(t, "partner")
        || same(t, "admin")
}

/// The tag without white space around it, in lower case.
pub open spec fn normal(raw: Seq<char>) -> Seq<char> {
    lowered(trimmed(raw))
}

/// Whether the text may stand as a tag: 1 to 32 bytes of small letters, digits and hyphens
/// of ASCII, and not a reserved word.
pub open spec fn tag_allowed(t: Seq<char>) -> bool {
    &&& t.len() > 0
    &&& encode_utf8(t).len() <= 32
    &&& only_tag_chars(t)
    &&& !reserved(t)
}

/// Whether the character may stand in a tag.
pub open spec fn tag_char(c: char) -> bool {
    ('a' <= c && c <= 'z') || ('0' <= c && c <= '9') || c == '-'
}

/// Whether the text has only small letters, digits and hyphens of ASCII.
pub open spec fn only_tag_chars(t: Seq<char>) -> bool {
    forall|i: int| 0 <= i < t.len() ==> tag_char(#[trigger] t[i])
}

/// What is wrong with the tag, where something is.
pub open spec fn tag_fault(raw: Seq<char>) -> Option<Seq<char>> {
    let t = normal(raw);
    if t.len() == 0 || encode_utf8(t).len() > 32 {
        Some("Tag '"@ + trimmed(raw) + "' must be 1–32 characters"@)
    } else if !only_tag_chars(t) {
        Some("Tag '"@ + t + "' may only contain a–z, 0–9, and hyphens"@)
    } else if reserved(t) {
        Some("Tag '"@ + t + "' is reserved and cannot be used as a self-tag"@)
    } else {
        None
    }
}

/// The tag in its normal form, or what is wrong with it.
pub fn normalise_tag(raw: &str) -> (r: Result<String, String>)
    ensures
        match tag_fault(raw@) {
            Some(f) => r matches Err(m) && m@ == f,
            None => r matches Ok(t) && t@ == normal(raw@) && tag_allowed(t@) && normal(t@) == t@
                && tag_fault(t@) is None,
        },
{
    let bare = trim(raw);
    let t = to_lowercase(bare.as_str());
    if t.as_str().is_empty() || t.as_str().as_bytes().len() > 32 {
        return Err(concat3("Tag '", bare.as_str(), "' must be 1–32 characters"));
    }
    let v = chars_of(t.as_str());
    let mut i: usize = 0;
    while i < v.len()
        invariant
            v@ == t@,
            i <= v@.len(),
            t@ == normal(raw@),
            t@.len() > 0,
            encode_utf8(t@).len() <= 32,
            forall|k: int| 0 <= k < i ==> tag_char(#[trigger] v@[k]),
        decreases v@.len() - i,
    {
        let c = v[i];
        if !(('a' <= c && c <= 'z') || ('0' <= c && c <= '9') || c == '-') {
            assert(!tag_char(t@[i as int]));
            return Err(
                concat3("Tag '", t.as_str(), "' may only contain a–z, 0–9, and hyphens"),
            );
        }
        i = i + 1;
    }
    if is_reserved(t.as_str()) {
        return Err(
            concat3("Tag '", t.as_str(), "' is reserved and cannot be used as a self-tag"),
        );
    }
    proof {
        normalising_again_changes_nothing(t@);
    }
    Ok(t)
}

/// A tag that may stand is in its normal form, and has no fault.
pub proof fn normalising_again_changes_nothing(t: Seq<char>)
    requires
        tag_allowed(t),
    ensures
        normal(t) == t,
        tag_fault(t) is None,
{
    assert(tag_char(t[0]));
    assert(tag_char(t[t.len() - 1]));
    assert(trimmed(t) == t);
    assert(is_ascii_chars(t)) by {
        assert forall|i: int| 0 <= i < t.len() implies (#[trigger] t[i] as nat) < 128 by {
            assert(tag_char(t[i]));
        }
    }
    assert forall|i: int| 0 <= i < t.len() implies ascii_lower(#[trigger] t[i]) == t[i] by {
        assert(tag_char(t[i]));
    }
    assert(t.map_values(|c: char| ascii_lower(c)) =~= t);
}

/// The fault of the first tag that has one.
pub open spec fn first_fault(tags: Seq<Seq<char>>) -> Option<Seq<char>>
    decreases tags.len(),
{
    if tags.len() == 0 {
        None
    } else if first_fault(tags.drop_last()) is Some {
        first_fault(tags.drop_last())
    } else {
        tag_fault(tags.last())
    }
}

/// The texts in their order, each at its first place only.
pub open spec fn deduped(s: Seq<Seq<char>>) -> Seq<Seq<char>>
    decreases s.len(),
{
    if s.len() == 0 {
        s
    } else {
        let d = deduped(s.drop_last());
        if d.contains(s.last()) {
            d
        } else {
            d.push(s.last())
        }
    }
}

/// The tags as the hub keeps them.
pub open spec fn kept_tags(tags: Seq<Seq<char>>) -> Seq<Seq<char>> {
    deduped(tags.map_values(|t: Seq<char>| normal(t)))
}

/// Nothing stands twice in a list that was freed of repeats, and nothing is lost from it.
pub proof fn deduped_is_a_set(s: Seq<Seq<char>>)
    ensures
        deduped(s).no_duplicates(),
        forall|t: Seq<char>| #[trigger] deduped(s).contains(t) <==> s.contains(t),
        deduped(s).len() <= s.len(),
    decreases s.len(),
{
    if s.len() > 0 {
        let rest = s.drop_last();
        deduped_is_a_set(rest);
        let d = deduped(rest);
        assert forall|t: Seq<char>| #[trigger] deduped(s).contains(t) <==> s.contains(t) by {
            if s.contains(t) {
                let k = choose|k: int| 0 <= k < s.len() && s[k] == t;
                if k < rest.len() {
                    assert(rest[k] == t);
                    assert(d.contains(t));
                    let m = choose|m: int| 0 <= m < d.len() && d[m] == t;
                    assert(deduped(s)[m] == t);
                } else if !d.contains(s.last()) {
                    assert(deduped(s)[d.len() as int] == t);
                }
            }
            if deduped(s).contains(t) {
                let m = choose|m: int| 0 <= m < deduped(s).len() && deduped(s)[m] == t;
                if m < d.len() {
                    assert(d.contains(d[m]));
                    assert(rest.contains(t));
                    let k = choose|k: int| 0 <= k < rest.len() && rest[k] == t;
                    assert(s[k] == t);
                } else {
                    assert(s[s.len() - 1] == t);
                }
            }
        }
    }
}

/// A list without repeats is kept as it is.
pub proof fn deduped_is_idempotent(s: Seq<Seq<char>>)
    ensures
        deduped(deduped(s)) == deduped(s),
{
    deduped_is_a_set(s);
    lemma_dedup_of_distinct(deduped(s));
}

proof fn lemma_dedup_of_distinct(s: Seq<Seq<char>>)
    requires
        s.no_duplicates(),
    ensures
        deduped(s) == s,
    decreases s.len(),
{
    if s.len() > 0 {
        let rest = s.drop_last();
        lemma_dedup_of_distinct(rest);
        if rest.contains(s.last()) {
            let k = choose|k: int| 0 <= k < rest.len() && rest[k] == s.last();
            assert(s[k] == s[s.len() - 1]);
        }
        assert(rest.push(s.last()) =~= s);
    }
}

/// A tag that was kept is one that may stand: no reserved word is ever kept.
pub proof fn kept_tags_are_allowed(tags: Seq<Seq<char>>, t: Seq<char>)
    requires
        first_fault(tags) is None,
        kept_tags(tags).contains(t),
    ensures
        tag_allowed(t),
    decreases tags.len(),
{
    let normals = tags.map_values(|x: Seq<char>| normal(x));
    deduped_is_a_set(normals);
    let k = choose|k: int| 0 <= k < normals.len() && normals[k] == t;
    lemma_no_fault_at(tags, k);
}

proof fn lemma_no_fault_at(tags: Seq<Seq<char>>, k: int)
    requires
        first_fault(tags) is None,
        0 <= k < tags.len(),
    ensures
        tag_fault(tags[k]) is None,
    decreases tags.len(),
{
    if k < tags.len() - 1 {
        assert(tags.drop_last()[k] == tags[k]);
        lemma_no_fault_at(tags.drop_last(), k);
    }
}

/// Setting the tags that are kept already keeps them as they are.
pub proof fn kept_tags_are_kept_again(tags: Seq<Seq<char>>)
    requires
        first_fault(tags) is None,
    ensures
        kept_tags(kept_tags(tags)) == kept_tags(tags),
        first_fault(kept_tags(tags)) is None,
{
    let kept = kept_tags(tags);
    assert forall|k: int| 0 <= k < kept.len() implies normal(#[trigger] kept[k]) == kept[k]
        && tag_fault(kept[k]) is None by {
        kept_tags_are_allowed(tags, kept[k]);
        normalising_again_changes_nothing(kept[k]);
    }
    assert(kept.map_values(|t: Seq<char>| normal(t)) =~= kept);
    deduped_is_idempotent(tags.map_values(|t: Seq<char>| normal(t)));
    lemma_no_first_fault(kept);
}

proof fn lemma_no_first_fault(tags: Seq<Seq<char>>)
    requires
        forall|k: int| 0 <= k < tags.len() ==> tag_fault(#[trigger] tags[k]) is None,
    ensures
        first_fault(tags) is None,
    decreases tags.len(),
{
    if tags.len() > 0 {
        assert(tags.last() == tags[tags.len() - 1]);
        assert forall|k: int| 0 <= k < tags.drop_last().len() implies tag_fault(
            #[trigger] tags.drop_last()[k],
        ) is None by {
            assert(tags.drop_last()[k] == tags[k]);
        }
        lemma_no_first_fault(tags.drop_last());
    }
}

/// Why the tags may not be set, where they may not.
pub open spec fn patch_refusal(perms: UserPermissions, tags: Seq<Seq<char>>) -> Option<HubRefusal> {
    if perms.refusal(ADMIN@) is Some {
        perms.refusal(ADMIN@)
    } else if tags.len() > MAX_TAGS {
        Some(hub_refusal(400, "A hub may have at most 12 self-tags"@))
    } else {
        match first_fault(tags) {
            Some(f) => Some(hub_refusal(400, f)),
            None => None,
        }
    }
}

/// Sets the tags: what is stored, as JSON text, and what is answered.
pub fn patch_tags(perms: &UserPermissions, req: &PatchTagsRequest) -> (r: Result<
    (String, TagsResponse),
    HubError,
>)
    ensures
        match patch_refusal(*perms, texts(req.tags@)) {
            Some(d) => refused(r, d),
            None => r matches Ok(x) && x.0@ == json_of_strings(kept_tags(texts(req.tags@)))
                && texts(x.1.tags@) == kept_tags(texts(req.tags@)) && strings_of_json(x.0@) == Some(
                texts(x.1.tags@),
            ),
        },
{
    match perms.require(ADMIN) {
        Ok(_) => {},
        Err(e) => return Err(e),
    }
    if req.tags.len() > MAX_TAGS {
        return Err(refuse(400, "A hub may have at most 12 self-tags"));
    }
    let ghost asked = texts(req.tags@);
    let ghost normals = asked.map_values(|t: Seq<char>| normal(t));
    let mut kept: Vec<String> = Vec::new();
    let mut i: usize = 0;
    assert(normals.take(0) =~= Seq::<Seq<char>>::empty());
    while i < req.tags.len()
        invariant
            i <= req.tags@.len(),
            req.tags@.len() <= MAX_TAGS,
            asked == texts(req.tags@),
            normals == asked.map_values(|t: Seq<char>| normal(t)),
            perms.refusal(ADMIN@) is None,
            first_fault(asked.take(i as int)) is None,
            texts(kept@) == deduped(normals.take(i as int)),
        decreases req.tags@.len() - i,
    {
        proof {
            assert(asked.take(i as int + 1).drop_last() =~= asked.take(i as int));
            assert(normals.take(i as int + 1).drop_last() =~= normals.take(i as int));
        }
        match normalise_tag(req.tags[i].as_str()) {
            Ok(t) => {
                if !contains_text(&kept, t.as_str()) {
                    let ghost before = texts(kept@);
                    kept.push(t);
                    assert(texts(kept@) =~= before.push(normals[i as int]));
                }
            },
            Err(m) => {
                proof {
                    lemma_fault_stays(asked, i as int + 1);
                }
                return Err(refuse_text(400, m));
            },
        }
        i = i + 1;
    }
    assert(asked.take(asked.len() as int) =~= asked);
    assert(normals.take(asked.len() as int) =~= normals);
    let j = strings_to_json(&kept);
    Ok((j, TagsResponse { tags: kept }))
}

/// The first fault of the beginning of a list is that of the list.
proof fn lemma_fault_stays(tags: Seq<Seq<char>>, i: int)
    requires
        0 <= i <= tags.len(),
        first_fault(tags.take(i)) is Some,
    ensures
        first_fault(tags) == first_fault(tags.take(i)),
    decreases tags.len(),
{
    if i == tags.len() {
        assert(tags.take(i) =~= tags);
    } else {
        assert(tags.drop_last().take(i) =~= tags.take(i));
        lemma_fault_stays(tags.drop_last(), i);
    }
}

/// The tags that the stored setting holds; none where it is absent or cannot be read.
pub open spec fn loaded_tags(raw: Option<Seq<char>>) -> Seq<Seq<char>> {
    match raw {
        Some(s) => match strings_of_json(s) {
            Some(t) => t,
            None => Seq::empty(),
        },
        None => Seq::empty(),
    }
}

/// The tags that the stored setting holds; none where it is absent or cannot be read.
pub fn load_tags(raw: &Option<String>) -> (r: Vec<String>)
    ensures
        texts(r@) == loaded_tags(opt_text(*raw)),
{
    match raw {
        Some(s) => match strings_from_json(s.as_str()) {
            Some(v) => v,
            None => {
                let v: Vec<String> = Vec::new();
                assert(texts(v@) =~= Seq::empty());
                v
            },
        },
        None => {
            let v: Vec<String> = Vec::new();
            assert(texts(v@) =~= Seq::empty());
            v
        },
    }
}

/// The tags, for an admin.
pub fn get_tags(perms: &UserPermissions, raw: &Option<String>) -> (r: Result<
    TagsResponse,
    HubError,
>)
    ensures
        match perms.refusal(ADMIN@) {
            Some(d) => refused(r, d),
            None => r matches Ok(t) && texts(t.tags@) == loaded_tags(opt_text(*raw)),
        },
{
    match perms.require(ADMIN) {
        Ok(_) => Ok(TagsResponse { tags: load_tags(raw) }),
        Err(e) => Err(e),
    }
}

/// Whether the hub says of itself that it is not safe for work.
pub fn load_nsfw(raw: &Option<String>) -> (r: bool)
    ensures
        r == (opt_text(*raw) == Some("true"@)),
{
    is_text(raw, "true")
}

/// A tag is kept without the blanks around it and in small letters, if it then is one to 32 small
/// letters, digits and hyphens, and no word that only others may say of a hub.
pub proof fn a_tag_is_kept_in_its_normal_form(raw: &str, r: Result<String, String>, i: int)
    requires
        call_ensures(normalise_tag, (raw,), r),
    ensures
        r matches Ok(t) ==> t@ == lowered(trimmed(raw@)) && t@.len() > 0 && encode_utf8(t@).len()
            <= 32,
        r is Ok && 0 <= i < r->Ok_0@.len() ==> ({
            let c = r->Ok_0@[i];
            ('a' <= c && c <= 'z') || ('0' <= c && c <= '9') || c == '-'
        }),
        r matches Ok(t) ==> t@ != "verified"@ && t@ != "certified"@ && t@ != "official"@ && t@
            != "partner"@ && t@ != "admin"@,
        r is Err ==> ({
            let t = lowered(trimmed(raw@));
            ||| t.len() == 0
            ||| encode_utf8(t).len() > 32
            ||| t == "verified"@ || t == "certified"@ || t == "official"@ || t == "partner"@ || t
                == "admin"@
            ||| exists|j: int|
                0 <= j < t.len() && !(('a' <= #[trigger] t[j] && t[j] <= 'z') || ('0' <= t[j]
                    && t[j] <= '9') || t[j] == '-')
        }),
{
    if r is Ok && 0 <= i < r->Ok_0@.len() {
        assert(tag_char(r->Ok_0@[i]));
    }
    if r is Err {
        let t = lowered(trimmed(raw@));
        if t.len() > 0 && encode_utf8(t).len() <= 32 && !reserved(t) {
            let j: int = choose|j: int| 0 <= j < t.len() && !tag_char(#[trigger] t[j]);
            assert(!(('a' <= t[j] && t[j] <= 'z') || ('0' <= t[j] && t[j] <= '9') || t[j] == '-'));
        }
    }
}

/// The tags are set by admins only, at most twelve of them; each is kept once, in its normal
/// form, and what is stored is what is answered and what is read again.
pub proof fn the_tags_that_are_set_are_read_again(
    perms: &UserPermissions,
    req: &PatchTagsRequest,
    r: Result<(String, TagsResponse), HubError>,
    stored: &Option<String>,
    again: Vec<String>,
    shown: Result<TagsResponse, HubError>,
    i: int,
    k: int,
)
    requires
        call_ensures(patch_tags, (perms, req), r),
        r is Ok ==> stored is Some && stored->0@ == r->Ok_0.0@,
        call_ensures(load_tags, (stored,), again),
        call_ensures(get_tags, (perms, stored), shown),
    ensures
        r is Ok ==> allows(*perms, "admin"@) && req.tags@.len() <= 12,
        !allows(*perms, "admin"@) ==> r is Err && r->Err_0.status == 403,
        allows(*perms, "admin"@) && req.tags@.len() > 12 ==> r is Err && r->Err_0.status == 400,
        r is Ok ==> texts(again@) == texts(r->Ok_0.1.tags@),
        shown is Ok <==> allows(*perms, "admin"@),
        shown matches Ok(t) ==> texts(t.tags@) == texts(again@),
        r is Ok && 0 <= i < req.tags@.len() ==> texts(r->Ok_0.1.tags@).contains(
            lowered(trimmed(req.tags@[i]@)),
        ),
        r is Ok && 0 <= k < r->Ok_0.1.tags@.len() ==> exists|j: int|
            0 <= j < req.tags@.len() && r->Ok_0.1.tags@[k]@ == lowered(
                trimmed((#[trigger] req.tags@[j])@),
            ),
        r is Ok ==> texts(r->Ok_0.1.tags@).no_duplicates(),
{
    lemma_may_is_allowed(*perms, ADMIN@);
    if r is Ok {
        let given = texts(req.tags@);
        let form = given.map_values(|t: Seq<char>| normal(t));
        deduped_is_a_set(form);
        let out = texts(r->Ok_0.1.tags@);
        if 0 <= i < req.tags@.len() {
            assert(given[i] == req.tags@[i]@);
            assert(form[i] == normal(given[i]));
            assert(form.contains(form[i]));
        }
        if 0 <= k < r->Ok_0.1.tags@.len() {
            assert(out[k] == r->Ok_0.1.tags@[k]@);
            assert(out.contains(out[k]));
            let j: int = choose|j: int| 0 <= j < form.len() && form[j] == out[k];
            assert(given[j] == req.tags@[j]@);
        }
    }
}

/// An admin who gives at most twelve tags, each one that may stand, has them set.
pub proof fn good_tags_are_set(
    perms: &UserPermissions,
    req: &PatchTagsRequest,
    r: Result<(String, TagsResponse), HubError>,
)
    requires
        call_ensures(patch_tags, (perms, req), r),
        allows(*perms, "admin"@),
        req.tags@.len() <= 12,
        forall|i: int|
            0 <= i < req.tags@.len() ==> ({
                let t = lowered(trimmed((#[trigger] req.tags@[i])@));
                &&& 0 < t.len()
                &&& encode_utf8(t).len() <= 32
                &&& t != "verified"@ && t != "certified"@ && t != "official"@ && t != "partner"@
                    && t != "admin"@
                &&& forall|j: int|
                    0 <= j < t.len() ==> (('a' <= #[trigger] t[j] && t[j] <= 'z') || ('0' <= t[j]
                        && t[j] <= '9') || t[j] == '-')
            }),
    ensures
        r is Ok,
{
    lemma_may_is_allowed(*perms, ADMIN@);
    let given = texts(req.tags@);
    assert forall|k: int| 0 <= k < given.len() implies tag_fault(#[trigger] given[k]) is None by {
        assert(given[k] == req.tags@[k]@);
        let t = normal(given[k]);
        assert forall|j: int| 0 <= j < t.len() implies tag_char(#[trigger] t[j]) by {}
    }
    lemma_no_first_fault(given);
}

/// What was never stored or cannot be read are no tags, and a hub is safe for work unless it says
/// otherwise.
pub proof fn nothing_stored_is_nothing_said(
    raw: &Option<String>,
    tags: Vec<String>,
    nsfw: bool,
)
    requires
        call_ensures(load_tags, (raw,), tags),
        call_ensures(load_nsfw, (raw,), nsfw),
    ensures
        raw is None ==> tags@.len() == 0 && !nsfw,
        raw is Some && strings_of_json(raw->0@) is None ==> tags@.len() == 0,
        raw is Some && strings_of_json(raw->0@) is Some ==> texts(tags@) == strings_of_json(
            raw->0@,
        )->0,
        nsfw <==> raw is Some && raw->0@ == "true"@,
{
    assert(texts(tags@).len() == tags@.len());
}

} // verus!
