//! Ranking of matches: ascending by distance, matches without a distance
//! last, and matches that tie in the order in which they arrived.

use crate::catalog::{views, File, FileView};
use vstd::prelude::*;
use vstd::seq_lib::{to_multiset_build, to_multiset_remove};

verus! {

/// The number by which a match is ranked: its distance, or, for a match
/// without one, a number above every distance.
pub open spec fn rank_key(distance: Option<u64>) -> int {
    match distance {
        Some(d) => d as int,
        None => 0x1_0000_0000_0000_0000,
    }
}

/// The predicate "this match is ranked by `k`".
pub open spec fn has_key(k: int) -> spec_fn(File) -> bool {
    |f: File| rank_key(f.distance) == k
}

/// The matches of `s` that are ranked by `k`, in the order they have in `s`.
pub open spec fn at_key(s: Seq<File>, k: int) -> Seq<File> {
    s.filter(has_key(k))
}

/// No match of `s` stands before one with a smaller distance, and none
/// without a distance stands before one that has a distance.
pub open spec fn ranked(s: Seq<File>) -> bool {
    forall|i: int, j: int|
        0 <= i < j < s.len() ==> rank_key(#[trigger] s[i].distance) <= rank_key(
            #[trigger] s[j].distance,
        )
}

/// `out` holds exactly the matches of `src`, ranked, and those that tie keep
/// the order that they have in `src`.
pub open spec fn is_ranking_of(out: Seq<File>, src: Seq<File>) -> bool {
    &&& ranked(out)
    &&& out.to_multiset() == src.to_multiset()
    &&& forall|k: int| #[trigger] at_key(out, k) == at_key(src, k)
}

/// The number by which the view of a match is ranked.
pub open spec fn view_key(distance: Option<nat>) -> int {
    match distance {
        Some(d) => d as int,
        None => 0x1_0000_0000_0000_0000,
    }
}

/// The predicate "this view of a match is ranked by `k`".
pub open spec fn view_has_key(k: int) -> spec_fn(FileView) -> bool {
    |v: FileView| view_key(v.distance) == k
}

/// The views in `s` that are ranked by `k`, in the order they have in `s`.
pub open spec fn views_at_key(s: Seq<FileView>, k: int) -> Seq<FileView> {
    s.filter(view_has_key(k))
}

/// [`ranked`], stated of views.
pub open spec fn views_ranked(s: Seq<FileView>) -> bool {
    forall|i: int, j: int|
        0 <= i < j < s.len() ==> view_key(#[trigger] s[i].distance) <= view_key(
            #[trigger] s[j].distance,
        )
}

/// [`is_ranking_of`], stated of views: `out` is as long as `src`, it is
/// ranked, and for every distance it holds the views that `src` holds at
/// that distance, in the order that they have there.
pub open spec fn is_view_ranking_of(out: Seq<FileView>, src: Seq<FileView>) -> bool {
    &&& out.len() == src.len()
    &&& views_ranked(out)
    &&& forall|k: int| #[trigger] views_at_key(out, k) == views_at_key(src, k)
}

proof fn lemma_filter_push<A>(s: Seq<A>, x: A, pred: spec_fn(A) -> bool)
    ensures
        s.push(x).filter(pred) == if pred(x) {
            s.filter(pred).push(x)
        } else {
            s.filter(pred)
        },
{
    reveal(Seq::filter);
    assert(s.push(x).drop_last() =~= s);
}

proof fn lemma_filter_nothing<A>(s: Seq<A>, pred: spec_fn(A) -> bool)
    requires
        forall|i: int| 0 <= i < s.len() ==> !pred(#[trigger] s[i]),
    ensures
        s.filter(pred) == Seq::<A>::empty(),
    decreases s.len(),
{
    reveal(Seq::filter);
    if s.len() > 0 {
        lemma_filter_nothing(s.drop_last(), pred);
    }
}

/// Whether a match with distance `a` is ranked no later than one with
/// distance `b`.
pub fn ranks_no_later(a: &Option<u64>, b: &Option<u64>) -> (r: bool)
    ensures
        r == (rank_key(*a) <= rank_key(*b)),
{
    match (a, b) {
        (Some(x), Some(y)) => *x <= *y,
        (Some(_), None) => true,
        (None, Some(_)) => false,
        (None, None) => true,
    }
}

/// Ranks matches by distance. The sort is stable.
pub fn rank(items: Vec<File>) -> (out: Vec<File>)
    ensures
        is_ranking_of(out@, items@),
        out.len() == items.len(),
{
    let ghost src = items@;
    let mut out: Vec<File> = Vec::new();
    proof {
        assert(src.take(0) =~= out@);
    }
    for item in it: items
        invariant
            it.seq() == src,
            out.len() == it.index(),
            ranked(out@),
            out@.to_multiset() == src.take(it.index()).to_multiset(),
            forall|k: int| #[trigger] at_key(out@, k) == at_key(src.take(it.index()), k),
    {
        let ghost before = out@;
        let ghost n = it.index();
        let mut p: usize = 0;
        while p < out.len() && ranks_no_later(&out[p].distance, &item.distance)
            invariant
                p <= out.len(),
                out@ == before,
                forall|i: int|
                    0 <= i < p ==> rank_key(#[trigger] out[i].distance) <= rank_key(item.distance),
            decreases out.len() - p,
        {
            p = p + 1;
        }
        out.insert(p, item);
        proof {
            let head = before.subrange(0, p as int);
            let tail = before.subrange(p as int, before.len() as int);
            let kx = rank_key(item.distance);
            before.insert_ensures(p as int, item);
            assert(before =~= head + tail);
            assert(out@ == head.push(item) + tail);
            assert(src.take(n + 1) =~= src.take(n).push(item));
            assert(out@.to_multiset() == src.take(n + 1).to_multiset()) by {
                assert(out@.remove(p as int) =~= before);
                to_multiset_remove(out@, p as int);
                to_multiset_build(src.take(n), item);
                out@.to_multiset_ensures();
                assert(out@.contains(item));
                assert(before.to_multiset().insert(item) =~= out@.to_multiset());
            }
            assert forall|i: int| 0 <= i < tail.len() implies rank_key(
                (#[trigger] tail[i]).distance,
            ) > kx by {
                assert(tail[i] == before[p + i]);
                assert(rank_key(before[p as int].distance) > kx);
            }
            assert forall|k: int| #[trigger] at_key(out@, k) == at_key(src.take(n + 1), k) by {
                let pred = has_key(k);
                Seq::filter_distributes_over_add(head.push(item), tail, pred);
                Seq::filter_distributes_over_add(head, tail, pred);
                lemma_filter_push(head, item, pred);
                lemma_filter_push(src.take(n), item, pred);
                assert(at_key(before, k) == at_key(src.take(n), k));
                if k == kx {
                    lemma_filter_nothing(tail, pred);
                    assert(head.filter(pred) + Seq::<File>::empty() =~= head.filter(pred));
                    assert(head.filter(pred).push(item) + Seq::<File>::empty() =~= head.filter(
                        pred,
                    ).push(item));
                }
            }
            assert forall|i: int, j: int| 0 <= i < j < out@.len() implies rank_key(
                #[trigger] out@[i].distance,
            ) <= rank_key(#[trigger] out@[j].distance) by {
                if i < p && j > p {
                    assert(out@[j] == before[j - 1]);
                } else if i >= p && j > p {
                    assert(out@[j] == before[j - 1]);
                    if i > p {
                        assert(out@[i] == before[i - 1]);
                    }
                }
            }
        }
    }
    proof {
        assert(src.take(src.len() as int) =~= src);
    }
    out
}

proof fn lemma_views_at_key(s: Seq<File>, k: int)
    ensures
        views(at_key(s, k)) == views_at_key(views(s), k),
    decreases s.len(),
{
    reveal(Seq::filter);
    if s.len() == 0 {
        assert(views(at_key(s, k)) =~= views_at_key(views(s), k));
    } else {
        let front = s.drop_last();
        lemma_views_at_key(front, k);
        assert(views(s).drop_last() =~= views(front));
        assert(views(s).last() == s.last()@);
        assert(view_key(s.last()@.distance) == rank_key(s.last().distance));
        if has_key(k)(s.last()) {
            assert(views(at_key(front, k).push(s.last())) =~= views(at_key(front, k)).push(
                s.last()@,
            ));
        }
    }
}

/// A ranking of matches is a ranking of their views.
pub proof fn lemma_ranking_views(out: Seq<File>, src: Seq<File>)
    requires
        is_ranking_of(out, src),
    ensures
        is_view_ranking_of(views(out), views(src)),
{
    out.to_multiset_ensures();
    src.to_multiset_ensures();
    assert forall|k: int| #[trigger] views_at_key(views(out), k) == views_at_key(
        views(src),
        k,
    ) by {
        lemma_views_at_key(out, k);
        lemma_views_at_key(src, k);
        assert(at_key(out, k) == at_key(src, k));
    }
    assert forall|i: int, j: int| 0 <= i < j < views(out).len() implies view_key(
        #[trigger] views(out)[i].distance,
    ) <= view_key(#[trigger] views(out)[j].distance) by {
        assert(view_key(out[i]@.distance) == rank_key(out[i].distance));
        assert(view_key(out[j]@.distance) == rank_key(out[j].distance));
    }
}

spec fn keyed<A>(key: spec_fn(A) -> int, k: int) -> spec_fn(A) -> bool {
    |x: A| key(x) == k
}

spec fn ascending<A>(s: Seq<A>, key: spec_fn(A) -> int) -> bool {
    forall|i: int, j: int| 0 <= i < j < s.len() ==> key(#[trigger] s[i]) <= key(#[trigger] s[j])
}

proof fn lemma_same_by_keys<A>(a: Seq<A>, b: Seq<A>, key: spec_fn(A) -> int)
    requires
        a.len() == b.len(),
        ascending(a, key),
        ascending(b, key),
        forall|k: int| #[trigger] a.filter(keyed(key, k)) == b.filter(keyed(key, k)),
    ensures
        a == b,
    decreases a.len(),
{
    reveal(Seq::filter);
    if a.len() == 0 {
        assert(a =~= b);
    } else {
        let ka = key(a.last());
        let kb = key(b.last());
        let a0 = a.drop_last();
        let b0 = b.drop_last();
        assert(a.filter(keyed(key, ka)) == a0.filter(keyed(key, ka)).push(a.last()));
        assert(b.filter(keyed(key, kb)) == b0.filter(keyed(key, kb)).push(b.last()));
        assert(a.filter(keyed(key, ka)) == b.filter(keyed(key, ka)));
        assert(a.filter(keyed(key, kb)) == b.filter(keyed(key, kb)));
        if ka < kb {
            // `a` holds an item with the key `kb`, above that of its last one.
            lemma_filter_opens(a, keyed(key, kb));
        } else if kb < ka {
            lemma_filter_opens(b, keyed(key, ka));
        }
        assert(ka == kb);
        assert(a.filter(keyed(key, ka)).last() == a.last());
        assert(b.filter(keyed(key, ka)).last() == b.last());
        assert forall|k: int| #[trigger]
            a0.filter(keyed(key, k)) == b0.filter(keyed(key, k)) by {
            assert(a.filter(keyed(key, k)) == b.filter(keyed(key, k)));
            if k == ka {
                assert(a0.filter(keyed(key, k)) =~= a.filter(keyed(key, k)).drop_last());
                assert(b0.filter(keyed(key, k)) =~= b.filter(keyed(key, k)).drop_last());
            }
        }
        assert forall|i: int, j: int| 0 <= i < j < a0.len() implies key(#[trigger] a0[i]) <= key(
            #[trigger] a0[j],
        ) by {
            assert(a0[i] == a[i] && a0[j] == a[j]);
        }
        assert forall|i: int, j: int| 0 <= i < j < b0.len() implies key(#[trigger] b0[i]) <= key(
            #[trigger] b0[j],
        ) by {
            assert(b0[i] == b[i] && b0[j] == b[j]);
        }
        lemma_same_by_keys(a0, b0, key);
        assert(a =~= a0.push(a.last()));
        assert(b =~= b0.push(b.last()));
    }
}

/// A sequence of matches has one ranking only.
pub proof fn lemma_ranking_unique(first: Seq<File>, second: Seq<File>, src: Seq<File>)
    requires
        is_ranking_of(first, src),
        is_ranking_of(second, src),
    ensures
        first == second,
{
    first.to_multiset_ensures();
    second.to_multiset_ensures();
    src.to_multiset_ensures();
    let key = |f: File| rank_key(f.distance);
    assert forall|k: int| #[trigger]
        first.filter(keyed(key, k)) == second.filter(keyed(key, k)) by {
        assert(keyed(key, k) =~= has_key(k));
        assert(at_key(first, k) == at_key(src, k));
        assert(at_key(second, k) == at_key(src, k));
    }
    lemma_same_by_keys(first, second, key);
}

/// A sequence of views has one ranking only: what a search reports is
/// settled by what the catalogs returned.
pub proof fn lemma_view_ranking_unique(
    first: Seq<FileView>,
    second: Seq<FileView>,
    src: Seq<FileView>,
)
    requires
        is_view_ranking_of(first, src),
        is_view_ranking_of(second, src),
    ensures
        first == second,
{
    let key = |v: FileView| view_key(v.distance);
    assert forall|k: int| #[trigger]
        first.filter(keyed(key, k)) == second.filter(keyed(key, k)) by {
        assert(keyed(key, k) =~= view_has_key(k));
        assert(views_at_key(first, k) == views_at_key(src, k));
        assert(views_at_key(second, k) == views_at_key(src, k));
    }
    lemma_same_by_keys(first, second, key);
}

/// In a ranked sequence the distances never decrease, and after a match
/// without a distance no match has one.
pub proof fn lemma_ranked_order(s: Seq<File>, i: int, j: int)
    requires
        ranked(s),
        0 <= i <= j < s.len(),
    ensures
        s[i].distance.is_none() ==> s[j].distance.is_none(),
        s[i].distance.is_some() && s[j].distance.is_some() ==> s[i].distance.unwrap()
            <= s[j].distance.unwrap(),
{
}

/// Where some match is at distance zero, a ranking opens with the first
/// such match.
pub proof fn lemma_exact_match_first(out: Seq<FileView>, src: Seq<FileView>, j: int)
    requires
        is_view_ranking_of(out, src),
        0 <= j < src.len(),
        src[j].distance == Some(0nat),
    ensures
        out.len() > 0,
        out[0].distance == Some(0nat),
        out[0] == views_at_key(src, 0)[0],
{
    let pred = view_has_key(0);
    src.filter_lemma(pred);
    out.filter_lemma(pred);
    assert(pred(src[j]));
    assert(views_at_key(src, 0).contains(src[j]));
    assert(views_at_key(out, 0) == views_at_key(src, 0));
    assert(views_at_key(out, 0).len() > 0);
    lemma_filter_opens(out, pred);
}

proof fn lemma_filter_opens<A>(s: Seq<A>, pred: spec_fn(A) -> bool)
    requires
        s.filter(pred).len() > 0,
    ensures
        s.len() > 0,
        exists|i: int| 0 <= i < s.len() && pred(s[i]) && s.filter(pred)[0] == s[i] && forall|h: int|
            0 <= h < i ==> !pred(#[trigger] s[h]),
    decreases s.len(),
{
    reveal(Seq::filter);
    if s.len() > 0 {
        let front = s.drop_last();
        if front.filter(pred).len() > 0 {
            lemma_filter_opens(front, pred);
            let i = choose|i: int|
                0 <= i < front.len() && pred(front[i]) && front.filter(pred)[0] == front[i]
                    && forall|h: int| 0 <= h < i ==> !pred(#[trigger] front[h]);
            assert(0 <= i < s.len() && pred(s[i]) && s.filter(pred)[0] == s[i]);
            assert forall|h: int| 0 <= h < i implies !pred(#[trigger] s[h]) by {
                assert(s[h] == front[h]);
            }
        } else {
            let i = s.len() - 1;
            assert(pred(s.last()));
            assert forall|h: int| 0 <= h < i implies !pred(#[trigger] s[h]) by {
                assert(s[h] == front[h]);
                if pred(front[h]) {
                    front.filter_lemma(pred);
                    assert(front.filter(pred).contains(front[h]));
                }
            }
            assert(s.filter(pred)[0] == s[i]);
        }
    }
}

} // verus!
