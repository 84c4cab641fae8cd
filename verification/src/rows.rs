//! Lists of rows, filtered and searched.
use vstd::prelude::*;
use crate::text::same;

verus! {

/// One more row, filtered.
pub proof fn lemma_filter_step<A>(s: Seq<A>, p: spec_fn(A) -> bool, i: int)
    requires
        0 <= i < s.len(),
    ensures
        s.take(i + 1).filter(p) == if p(s[i]) {
            s.take(i).filter(p).push(s[i])
        } else {
            s.take(i).filter(p)
        },
        s.take(i).filter(p).len() <= i,
{
    let t = s.take(i + 1);
    assert(t.drop_last() =~= s.take(i));
    assert(t.last() == s[i]);
    reveal(Seq::filter);
    s.take(i).lemma_filter_len(p);
}

/// The rows that are kept are those that meet the condition.
pub proof fn lemma_kept<A>(s: Seq<A>, p: spec_fn(A) -> bool, x: A)
    ensures
        s.filter(p).contains(x) <==> s.contains(x) && p(x),
{
    if s.filter(p).contains(x) {
        let i: int = choose|i: int| 0 <= i < s.filter(p).len() && s.filter(p)[i] == x;
        s.lemma_filter_pred(p, i);
        s.lemma_filter_contains_rev(p, x);
    }
    if s.contains(x) && p(x) {
        let i: int = choose|i: int| 0 <= i < s.len() && s[i] == x;
        s.lemma_filter_contains(p, i);
    }
}

/// The first row that meets the condition.
pub open spec fn first_match<A>(s: Seq<A>, p: spec_fn(A) -> bool) -> Option<A>
    decreases s.len(),
{
    if s.len() == 0 {
        None
    } else if p(s[0]) {
        Some(s[0])
    } else {
        first_match(s.skip(1), p)
    }
}

/// The row that meets the condition where none before it does is the first.
pub proof fn lemma_first_match<A>(s: Seq<A>, p: spec_fn(A) -> bool, i: int)
    requires
        0 <= i < s.len(),
        p(s[i]),
        forall|k: int| 0 <= k < i ==> !p(#[trigger] s[k]),
    ensures
        first_match(s, p) == Some(s[i]),
    decreases i,
{
    if i > 0 {
        assert(!p(s[0]));
        let t = s.skip(1);
        assert forall|k: int| 0 <= k < i - 1 implies !p(#[trigger] t[k]) by {
            assert(!p(s[k + 1]));
        }
        assert(t[i - 1] == s[i]);
        lemma_first_match(t, p, i - 1);
    }
}

/// Where no row meets the condition there is no first.
pub proof fn lemma_no_match<A>(s: Seq<A>, p: spec_fn(A) -> bool)
    requires
        forall|k: int| 0 <= k < s.len() ==> !p(#[trigger] s[k]),
    ensures
        first_match(s, p) is None,
    decreases s.len(),
{
    if s.len() > 0 {
        assert(!p(s[0]));
        let t = s.skip(1);
        assert forall|k: int| 0 <= k < t.len() implies !p(#[trigger] t[k]) by {
            assert(!p(s[k + 1]));
        }
        lemma_no_match(t, p);
    }
}

/// The first row that meets the condition is one of the rows, and meets it.
pub proof fn lemma_match_holds<A>(s: Seq<A>, p: spec_fn(A) -> bool)
    ensures
        match first_match(s, p) {
            Some(x) => p(x) && s.contains(x),
            None => forall|k: int| 0 <= k < s.len() ==> !p(#[trigger] s[k]),
        },
    decreases s.len(),
{
    if s.len() > 0 {
        if p(s[0]) {
            assert(s.contains(s[0]));
        } else {
            let t = s.skip(1);
            lemma_match_holds(t, p);
            match first_match(t, p) {
                Some(x) => {
                    let k = choose|k: int| 0 <= k < t.len() && t[k] == x;
                    assert(s[k + 1] == x);
                },
                None => {
                    assert forall|k: int| 0 <= k < s.len() implies !p(#[trigger] s[k]) by {
                        if k > 0 {
                            assert(!p(t[k - 1]));
                        }
                    }
                },
            }
        }
    }
}

/// A row put at the end is the first match where nothing before it matches.
pub proof fn lemma_match_push<A>(s: Seq<A>, x: A, p: spec_fn(A) -> bool)
    ensures
        first_match(s.push(x), p) == match first_match(s, p) {
            Some(y) => Some(y),
            None => if p(x) {
                Some(x)
            } else {
                None
            },
        },
    decreases s.len(),
{
    if s.len() == 0 {
        assert(s.push(x)[0] == x);
        assert(s.push(x).skip(1) =~= Seq::<A>::empty());
        assert(first_match(s.push(x).skip(1), p) is None);
    } else {
        assert(s.push(x)[0] == s[0]);
        assert(s.push(x).skip(1) =~= s.skip(1).push(x));
        lemma_match_push(s.skip(1), x, p);
    }
}

/// A row that has an identifier.
pub trait Identified {
    /// The identifier.
    spec fn row_id(&self) -> Seq<char>;

    /// The identifier.
    fn id_text(&self) -> (r: &str)
        ensures
            r@ == self.row_id(),
    ;
}

/// The rows with another identifier, as a condition.
pub open spec fn is_not<R: Identified>(id: Seq<char>) -> spec_fn(R) -> bool {
    |r: R| r.row_id() != id
}

/// Whether a row has the identifier.
pub open spec fn has_id<R: Identified>(rows: Seq<R>, id: Seq<char>) -> bool {
    exists|i: int| 0 <= i < rows.len() && (#[trigger] rows[i]).row_id() == id
}

/// The rows with the identifier, as a condition.
pub open spec fn is_row<R: Identified>(id: Seq<char>) -> spec_fn(R) -> bool {
    |r: R| r.row_id() == id
}

/// The place of the first row that meets the condition.
pub(crate) fn find_where<R>(
    rows: &Vec<R>,
    test: impl Fn(&R) -> bool,
    Ghost(p): Ghost<spec_fn(R) -> bool>,
) -> (r: Option<usize>)
    requires
        forall|x: &R| #[trigger] call_requires(test, (x,)),
        forall|x: &R, b: bool| #[trigger] call_ensures(test, (x,), b) ==> b == p(*x),
    ensures
        match first_match(rows@, p) {
            Some(x) => r matches Some(i) && i < rows@.len() && rows@[i as int] == x,
            None => r is None,
        },
{
    let mut i: usize = 0;
    while i < rows.len()
        invariant
            forall|x: &R| #[trigger] call_requires(test, (x,)),
            forall|x: &R, b: bool| #[trigger] call_ensures(test, (x,), b) ==> b == p(*x),
            i <= rows@.len(),
            forall|k: int| 0 <= k < i ==> !p(#[trigger] rows@[k]),
        decreases rows@.len() - i,
    {
        if test(&rows[i]) {
            proof {
                lemma_first_match(rows@, p, i as int);
            }
            return Some(i);
        }
        i = i + 1;
    }
    proof {
        lemma_no_match(rows@, p);
    }
    None
}

/// The first row that meets the condition.
pub(crate) fn find_row<'a, R>(
    rows: &'a Vec<R>,
    test: impl Fn(&R) -> bool,
    Ghost(p): Ghost<spec_fn(R) -> bool>,
) -> (r: Option<&'a R>)
    requires
        forall|x: &R| #[trigger] call_requires(test, (x,)),
        forall|x: &R, b: bool| #[trigger] call_ensures(test, (x,), b) ==> b == p(*x),
    ensures
        match first_match(rows@, p) {
            Some(x) => r matches Some(y) && *y == x,
            None => r is None,
        },
{
    match find_where(rows, test, Ghost(p)) {
        Some(i) => Some(&rows[i]),
        None => None,
    }
}

/// The place of the first row with the identifier.
pub fn find_id<R: Identified>(rows: &Vec<R>, id: &str) -> (r: Option<usize>)
    ensures
        match first_match(rows@, is_row(id@)) {
            Some(x) => r matches Some(i) && i < rows@.len() && rows@[i as int] == x,
            None => r is None,
        },
{
    let test = |x: &R| -> (b: bool)
        ensures
            b == (x.row_id() == id@),
    {
        same(x.id_text(), id)
    };
    find_where(rows, test, Ghost(is_row::<R>(id@)))
}

/// Keeps the rows that meet the condition, in their order.
pub(crate) fn keep_rows<R>(
    rows: &mut Vec<R>,
    keep: impl Fn(&R) -> bool,
    Ghost(p): Ghost<spec_fn(R) -> bool>,
)
    requires
        forall|x: &R| #[trigger] call_requires(keep, (x,)),
        forall|x: &R, b: bool| #[trigger] call_ensures(keep, (x,), b) ==> b == p(*x),
    ensures
        final(rows)@ == old(rows)@.filter(p),
{
    let ghost before = rows@;
    let mut i: usize = 0;
    let ghost mut done: int = 0;
    proof {
        reveal(Seq::filter);
        assert(before.take(0) =~= Seq::<R>::empty());
        assert(rows@.take(0) =~= Seq::<R>::empty());
    }
    while i < rows.len()
        invariant
            forall|x: &R| #[trigger] call_requires(keep, (x,)),
            forall|x: &R, b: bool| #[trigger] call_ensures(keep, (x,), b) ==> b == p(*x),
            i <= rows@.len(),
            0 <= done <= before.len(),
            rows@.len() - i == before.len() - done,
            rows@.take(i as int) == before.take(done).filter(p),
            forall|k: int|
                0 <= k < rows@.len() - i ==> #[trigger] rows@[i + k] == before[done + k],
        decreases rows@.len() - i,
    {
        proof {
            assert(rows@[i + 0] == before[done + 0]);
            lemma_filter_step(before, p, done);
        }
        let ghost old_rows = rows@;
        if !keep(&rows[i]) {
            rows.remove(i);
            proof {
                assert(rows@.take(i as int) =~= old_rows.take(i as int));
                assert forall|k: int| 0 <= k < rows@.len() - i implies #[trigger] rows@[i + k]
                    == before[done + 1 + k] by {
                    assert(old_rows[i + (k + 1)] == before[done + (k + 1)]);
                }
                done = done + 1;
            }
        } else {
            i = i + 1;
            proof {
                assert(rows@.take(i as int) =~= old_rows.take(i as int - 1).push(
                    old_rows[i as int - 1],
                ));
                assert forall|k: int| 0 <= k < rows@.len() - i implies #[trigger] rows@[i + k]
                    == before[done + 1 + k] by {
                    assert(old_rows[(i - 1) + (k + 1)] == before[done + (k + 1)]);
                }
                done = done + 1;
            }
        }
    }
    proof {
        assert(rows@.take(rows@.len() as int) =~= rows@);
        assert(before.take(before.len() as int) =~= before);
    }
}

/// Takes out the rows with the identifier. Says whether there were any.
pub fn remove_id<R: Identified>(rows: &mut Vec<R>, id: &str) -> (found: bool)
    ensures
        found == has_id(old(rows)@, id@),
        final(rows)@ == old(rows)@.filter(is_not(id@)),
{
    let found = find_id(rows, id).is_some();
    proof {
        lemma_match_holds(rows@, is_row::<R>(id@));
        if found {
            let x = first_match(rows@, is_row::<R>(id@))->0;
            let k = choose|k: int| 0 <= k < rows@.len() && rows@[k] == x;
            assert(rows@[k].row_id() == id@);
        } else {
            assert forall|k: int| 0 <= k < rows@.len() implies (#[trigger] rows@[k]).row_id()
                != id@ by {
                assert(!is_row::<R>(id@)(rows@[k]));
            }
        }
    }
    let other = |x: &R| -> (b: bool)
        ensures
            b == (x.row_id() != id@),
    {
        !same(x.id_text(), id)
    };
    keep_rows(rows, other, Ghost(is_not::<R>(id@)));
    found
}

/// What is taken out is gone.
pub proof fn removed_is_gone<R: Identified>(rows: Seq<R>, id: Seq<char>)
    ensures
        !has_id(rows.filter(is_not(id)), id),
{
    let f = rows.filter(is_not::<R>(id));
    assert forall|i: int| 0 <= i < f.len() implies (#[trigger] f[i]).row_id() != id by {
        rows.lemma_filter_pred(is_not::<R>(id), i);
    }
}

} // verus!
