//! The order in which conferences are listed: newest first, by the time
//! they were created; conferences created at the same time keep their order.
use vstd::prelude::*;
use vstd::view::View as _;
use crate::models::{Conference, ConferenceView, conference_views};
use crate::text::{precedes, text_precedes, lemma_precedes_transitive,
    lemma_precedes_total};

verus! {

broadcast use vstd::seq_lib::group_to_multiset_ensures;

/// `a` was created strictly before `b`.
pub open spec fn created_before(a: ConferenceView, b: ConferenceView) -> bool {
    precedes(a.created_at, b.created_at)
}

/// No conference in `s` is listed before a newer one.
pub open spec fn is_newest_first(s: Seq<ConferenceView>) -> bool {
    forall|i: int, j: int| 0 <= i < j < s.len() ==> !created_before(#[trigger] s[i], #[trigger] s[j])
}

/// Where `c` goes in the list `s`: before the first conference that is older
/// than `c`, after all the others.
pub open spec fn insertion_point(s: Seq<ConferenceView>, c: ConferenceView) -> int
    decreases s.len(),
{
    if s.len() == 0 {
        0
    } else if created_before(s[0], c) {
        0
    } else {
        1 + insertion_point(s.drop_first(), c)
    }
}

/// `s` with `c` put in its place.
pub open spec fn insert_by_date(s: Seq<ConferenceView>, c: ConferenceView) -> Seq<ConferenceView> {
    s.insert(insertion_point(s, c), c)
}

/// `s` listed newest first; conferences created at the same time keep the
/// order they have in `s` (a stable sort by creation time, descending).
pub open spec fn newest_first(s: Seq<ConferenceView>) -> Seq<ConferenceView>
    decreases s.len(),
{
    if s.len() == 0 {
        s
    } else {
        insert_by_date(newest_first(s.drop_last()), s.last())
    }
}

/// The insertion point is the first index at which the conference is older.
pub proof fn lemma_insertion_point(s: Seq<ConferenceView>, c: ConferenceView, p: int)
    requires
        0 <= p <= s.len(),
        forall|i: int| 0 <= i < p ==> !created_before(#[trigger] s[i], c),
        p == s.len() || created_before(s[p], c),
    ensures
        insertion_point(s, c) == p,
    decreases s.len(),
{
    if s.len() > 0 && p > 0 {
        let t = s.drop_first();
        assert forall|i: int| 0 <= i < p - 1 implies !created_before(#[trigger] t[i], c) by {
            assert(t[i] == s[i + 1]);
        }
        if p < s.len() {
            assert(t[p - 1] == s[p]);
        }
        lemma_insertion_point(t, c, p - 1);
    }
}

/// The insertion point lies within the list.
pub proof fn lemma_insertion_point_bounds(s: Seq<ConferenceView>, c: ConferenceView)
    ensures
        0 <= insertion_point(s, c) <= s.len(),
        forall|i: int| 0 <= i < insertion_point(s, c) ==> !created_before(#[trigger] s[i], c),
        insertion_point(s, c) == s.len() || created_before(s[insertion_point(s, c)], c),
    decreases s.len(),
{
    if s.len() > 0 && !created_before(s[0], c) {
        let t = s.drop_first();
        lemma_insertion_point_bounds(t, c);
        let p = insertion_point(s, c);
        assert forall|i: int| 0 <= i < p implies !created_before(#[trigger] s[i], c) by {
            if i > 0 {
                assert(s[i] == t[i - 1]);
            }
        }
        if p < s.len() {
            assert(s[p] == t[p - 1]);
        }
    }
}

/// Putting a conference in its place keeps a newest-first list newest first.
pub proof fn lemma_insert_keeps_order(s: Seq<ConferenceView>, c: ConferenceView)
    requires
        is_newest_first(s),
    ensures
        is_newest_first(insert_by_date(s, c)),
{
    lemma_insertion_point_bounds(s, c);
    let p = insertion_point(s, c);
    let r = s.insert(p, c);
    assert forall|i: int, j: int| 0 <= i < j < r.len() implies !created_before(
        #[trigger] r[i],
        #[trigger] r[j],
    ) by {
        if i < p && j < p {
            assert(r[i] == s[i] && r[j] == s[j]);
        } else if i < p && j == p {
            assert(r[i] == s[i]);
        } else if i < p && j > p {
            assert(r[i] == s[i] && r[j] == s[j - 1]);
        } else if i == p {
            // j > p: s[j - 1] is no newer than s[p], which is older than c
            assert(r[j] == s[j - 1]);
            assert(created_before(s[p], c));
            lemma_precedes_total(s[j - 1].created_at, s[p].created_at);
            lemma_precedes_total(s[j - 1].created_at, c.created_at);
            if j - 1 > p {
                assert(!created_before(s[p], s[j - 1]));
                if s[j - 1].created_at == s[p].created_at {
                } else {
                    lemma_precedes_transitive(s[j - 1].created_at, s[p].created_at, c.created_at);
                }
            }
        } else {
            assert(r[i] == s[i - 1] && r[j] == s[j - 1]);
        }
    }
}

/// Law: the list comes out newest first.
pub proof fn lemma_newest_first_is_ordered(s: Seq<ConferenceView>)
    ensures
        is_newest_first(newest_first(s)),
    decreases s.len(),
{
    if s.len() > 0 {
        lemma_newest_first_is_ordered(s.drop_last());
        lemma_insert_keeps_order(newest_first(s.drop_last()), s.last());
    }
}

/// Law: ordering keeps every conference, each as many times as before.
pub proof fn lemma_newest_first_keeps_all(s: Seq<ConferenceView>)
    ensures
        newest_first(s).to_multiset() == s.to_multiset(),
        newest_first(s).len() == s.len(),
    decreases s.len(),
{
    broadcast use vstd::seq_lib::to_multiset_insert, vstd::seq_lib::to_multiset_build,
        vstd::seq_lib::to_multiset_len;

    if s.len() > 0 {
        let t = newest_first(s.drop_last());
        lemma_newest_first_keeps_all(s.drop_last());
        lemma_insertion_point_bounds(t, s.last());
        assert(s.drop_last().push(s.last()) =~= s);
    }
}

/// Law: a list that is already newest first is left as it is.
pub proof fn lemma_newest_first_of_ordered(s: Seq<ConferenceView>)
    requires
        is_newest_first(s),
    ensures
        newest_first(s) == s,
    decreases s.len(),
{
    if s.len() > 0 {
        let init = s.drop_last();
        assert forall|i: int, j: int| 0 <= i < j < init.len() implies !created_before(
            #[trigger] init[i],
            #[trigger] init[j],
        ) by {
            assert(init[i] == s[i] && init[j] == s[j]);
        }
        lemma_newest_first_of_ordered(init);
        assert forall|i: int| 0 <= i < init.len() implies !created_before(
            #[trigger] init[i],
            s.last(),
        ) by {
            assert(init[i] == s[i]);
        }
        lemma_insertion_point(init, s.last(), init.len() as int);
        assert(init.insert(init.len() as int, s.last()) =~= s);
    }
}

/// Lists `v` newest first; conferences created at the same time keep their order.
pub fn sort_newest_first(v: &mut Vec<Conference>)
    ensures
        conference_views(final(v)@) == newest_first(conference_views(old(v)@)),
{
    let ghost orig = conference_views(v@);
    let mut sorted: Vec<Conference> = Vec::new();
    let mut k: usize = 0;
    let n = v.len();
    assert(orig.take(0) =~= Seq::<ConferenceView>::empty());
    assert(conference_views(sorted@) =~= Seq::<ConferenceView>::empty());
    while v.len() > 0
        invariant
            k + v.len() == n,
            n == orig.len(),
            conference_views(v@) == orig.skip(k as int),
            conference_views(sorted@) == newest_first(orig.take(k as int)),
        decreases v.len(),
    {
        let ghost before = v@;
        let c = v.remove(0);
        assert(c@ == orig[k as int]) by {
            assert(conference_views(before)[0] == orig.skip(k as int)[0]);
        }
        assert(conference_views(v@) =~= orig.skip(k + 1)) by {
            assert(orig.skip(k as int).drop_first() =~= orig.skip(k + 1));
        }
        let ghost sv = conference_views(sorted@);
        let mut j: usize = 0;
        while j < sorted.len() && !text_precedes(sorted[j].created_at.as_str(), c.created_at.as_str())
            invariant
                j <= sorted.len(),
                sv == conference_views(sorted@),
                forall|i: int| 0 <= i < j ==> !created_before(#[trigger] sv[i], c@),
            decreases sorted.len() - j,
        {
            j = j + 1;
        }
        proof {
            if j < sorted.len() {
                assert(sv[j as int] == sorted@[j as int]@);
            }
            lemma_insertion_point(sv, c@, j as int);
            assert(orig.take(k + 1).drop_last() =~= orig.take(k as int));
            assert(orig.take(k + 1).last() == c@);
        }
        sorted.insert(j, c);
        assert(conference_views(sorted@) =~= sv.insert(j as int, c@));
        k = k + 1;
    }
    assert(orig.take(n as int) =~= orig);
    *v = sorted;
}

} // verus!
