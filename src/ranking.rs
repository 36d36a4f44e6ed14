use crate::entry::{AppEntry, EntryView};
use crate::matching::{Ranker, MAX_QUERY_CHARS};
use crate::relevance::{
    as_score, combined, entry_relevance, fits_score, keyword_scores, text_score, lemma_sum_points_none,
    lemma_sum_points_single, points, scored, texts_fit,
};
use vstd::prelude::*;

verus! {

/// The views of a list of entries.
pub open spec fn views(v: Seq<AppEntry>) -> Seq<EntryView> {
    v.map_values(|e: AppEntry| e@)
}

/// The relevance of each entry of a store for `query`.
pub open spec fn relevances(query: Seq<char>, es: Seq<EntryView>) -> Seq<Option<int>> {
    es.map_values(|e: EntryView| entry_relevance(query, e))
}

/// Scores as integers.
pub open spec fn score_values(scores: Seq<Option<u128>>) -> Seq<Option<int>> {
    scores.map_values(|s: Option<u128>| match s {
        Some(v) => Some(v as int),
        None => None,
    })
}

/// Whether position `x` ranks before position `y`: a higher score first, and
/// on equal scores the earlier position.
pub open spec fn outranks(scores: Seq<Option<int>>, x: int, y: int) -> bool {
    let a = scores[x]->0;
    let b = scores[y]->0;
    a > b || (a == b && x < y)
}

/// Whether `r` holds exactly the positions that have a score, best first.
pub open spec fn is_order(scores: Seq<Option<int>>, r: Seq<usize>) -> bool {
    &&& forall|k: int| 0 <= k < r.len() ==> #[trigger] r[k] < scores.len() && scores[r[k] as int] is Some
    &&& forall|i: int| 0 <= i < scores.len() && #[trigger] scores[i] is Some ==> r.contains(i as usize)
    &&& forall|j: int, k: int|
        0 <= j < k < r.len() ==> outranks(scores, #[trigger] r[j] as int, #[trigger] r[k] as int)
}

/// Whether `r` is the ranking of the store `es` for `query`: the positions of
/// the entries that match, best first, ties in store order.
pub open spec fn is_ranking(query: Seq<char>, es: Seq<EntryView>, r: Seq<usize>) -> bool {
    is_order(relevances(query, es), r)
}

/// Whether the score `a` of position `x` ranks it before position `y` with
/// score `b`.
fn ranks_before(a: u128, x: usize, b: u128, y: usize) -> (r: bool)
    ensures
        r == (a > b || (a == b && x < y)),
{
    a > b || (a == b && x < y)
}

/// The positions that have a score, best first; equal scores keep their
/// order.
pub fn order_matches(scores: &Vec<Option<u128>>) -> (r: Vec<usize>)
    ensures
        is_order(score_values(scores@), r@),
{
    let ghost ss = score_values(scores@);
    let n = scores.len();
    let mut r: Vec<usize> = Vec::new();
    for i in 0..n
        invariant
            n == scores@.len(),
            ss == score_values(scores@),
            forall|k: int| 0 <= k < r@.len() ==> #[trigger] r@[k] < i && ss[r@[k] as int] is Some,
            forall|j: int| 0 <= j < i && #[trigger] ss[j] is Some ==> r@.contains(j as usize),
            forall|j: int, k: int|
                0 <= j < k < r@.len() ==> outranks(ss, #[trigger] r@[j] as int, #[trigger] r@[k] as int),
    {
        if let Some(s) = scores[i] {
            let mut p: usize = 0;
            while p < r.len() && ranks_before(scores[r[p]].unwrap(), r[p], s, i)
                invariant
                    n == scores@.len(),
                    ss == score_values(scores@),
                    0 <= p <= r@.len(),
                    i < n,
                    scores@[i as int] == Some(s),
                    forall|k: int| 0 <= k < r@.len() ==> #[trigger] r@[k] < i && ss[r@[k] as int] is Some,
                    forall|k: int| 0 <= k < p ==> outranks(ss, #[trigger] r@[k] as int, i as int),
                decreases r@.len() - p,
            {
                p = p + 1;
            }
            let ghost old_r = r@;
            proof {
                if p < old_r.len() {
                    assert(outranks(ss, i as int, old_r[p as int] as int));
                    assert forall|k: int| p <= k < old_r.len() implies outranks(ss, i as int, #[trigger] old_r[k] as int) by {
                        if k > p {
                            assert(outranks(ss, old_r[p as int] as int, old_r[k] as int));
                        }
                    }
                }
            }
            r.insert(p, i);
            proof {
                assert(r@ == old_r.insert(p as int, i));
                assert forall|j: int| 0 <= j < i + 1 && #[trigger] ss[j] is Some implies r@.contains(j as usize) by {
                    if j < i {
                        let k = choose|k: int| 0 <= k < old_r.len() && old_r[k] == j as usize;
                        if k < p {
                            assert(r@[k] == j as usize);
                        } else {
                            assert(r@[k + 1] == j as usize);
                        }
                    } else {
                        assert(r@[p as int] == i);
                    }
                }
            }
        }
    }
    r
}

impl Ranker {
    /// Scores every entry of the store against `query` and returns the
    /// positions of the entries that match, best first; entries of equal
    /// relevance keep their order in the store. The empty query matches
    /// every entry.
    pub fn rank(&mut self, entries: &mut Vec<AppEntry>, query: &str) -> (r: Vec<usize>)
        requires
            query@.len() <= MAX_QUERY_CHARS,
            forall|i: int| 0 <= i < old(entries)@.len() ==> texts_fit(#[trigger] old(entries)@[i]@),
        ensures
            final(entries)@.len() == old(entries)@.len(),
            forall|i: int|
                0 <= i < old(entries)@.len() ==> #[trigger] final(entries)@[i]@ == scored(
                    query@,
                    old(entries)@[i]@,
                ),
            forall|i: int|
                0 <= i < old(entries)@.len() ==> fits_score(
                    #[trigger] entry_relevance(query@, old(entries)@[i]@),
                ),
            is_ranking(query@, views(old(entries)@), r@),
            old(entries)@.len() == 0 ==> r@.len() == 0,
    {
        let ghost es = views(entries@);
        let n = entries.len();
        let mut scores: Vec<Option<u128>> = Vec::new();
        for i in 0..n
            invariant
                n == entries@.len(),
                es == views(old(entries)@),
                n == es.len(),
                query@.len() <= MAX_QUERY_CHARS,
                forall|j: int| 0 <= j < n ==> texts_fit(#[trigger] es[j]),
                forall|j: int| 0 <= j < i ==> #[trigger] entries@[j]@ == scored(query@, es[j]),
                forall|j: int| i <= j < n ==> #[trigger] entries@[j] == old(entries)@[j],
                scores@.len() == i,
                forall|j: int| 0 <= j < i ==> fits_score(#[trigger] entry_relevance(query@, es[j])),
                forall|j: int| 0 <= j < i ==> #[trigger] score_values(scores@)[j] == entry_relevance(query@, es[j]),
        {
            assert(entries@[i as int]@ == es[i as int]);
            entries[i].compute_score(self, query);
            let ghost before = scores@;
            scores.push(entries[i].score());
            proof {
                assert forall|j: int| 0 <= j < i + 1 implies #[trigger] score_values(scores@)[j] == entry_relevance(query@, es[j]) by {
                    if j < i {
                        assert(scores@[j] == before[j]);
                        assert(score_values(before)[j] == entry_relevance(query@, es[j]));
                    }
                }
            }
        }
        assert(score_values(scores@) == relevances(query@, es));
        let r = order_matches(&scores);
        proof {
            if r@.len() > 0 {
                assert(r@[0] < n);
            }
            assert forall|i: int| 0 <= i < n implies fits_score(
                #[trigger] entry_relevance(query@, old(entries)@[i]@),
            ) by {
                assert(es[i] == old(entries)@[i]@);
            }
        }
        r
    }
}

/// A query that matches only the name of entry `a` counts five times as much
/// as the same fuzzy score on a single keyword of entry `b`, where nothing
/// else of `b` matches; so are the scores that a scoring pass stores.
pub proof fn lemma_name_weight(query: Seq<char>, a: EntryView, b: EntryView, k: int, s: u32)
    requires
        query.len() > 0,
        text_score(query, a.name) == Some(s),
        forall|i: int| 0 <= i < a.keywords.len() ==> #[trigger] text_score(query, a.keywords[i]) is None,
        text_score(query, b.name) is None,
        0 <= k < b.keywords.len(),
        text_score(query, b.keywords[k]) == Some(s),
        forall|i: int|
            0 <= i < b.keywords.len() && i != k ==> #[trigger] text_score(query, b.keywords[i]) is None,
    ensures
        entry_relevance(query, a) == Some(5 * (s as int)),
        entry_relevance(query, b) == Some(s as int),
        scored(query, a).score == Some((5 * (s as int)) as u128),
        scored(query, b).score == Some(s as u128),
{
    let ka = keyword_scores(query, a.keywords);
    let kb = keyword_scores(query, b.keywords);
    assert forall|i: int| 0 <= i < ka.len() implies #[trigger] ka[i] is None by {
        assert(text_score(query, a.keywords[i]) is None);
    }
    lemma_sum_points_none(ka);
    assert forall|i: int| 0 <= i < kb.len() && i != k implies #[trigger] kb[i] is None by {
        assert(text_score(query, b.keywords[i]) is None);
    }
    lemma_sum_points_single(kb, k);
    assert(kb[k] is Some);
    assert(combined(text_score(query, b.name), kb) is Some);
}

/// An entry whose name and keywords all fail to match a non-empty query gets
/// no score and is never ranked.
pub proof fn lemma_unmatched_excluded(query: Seq<char>, es: Seq<EntryView>, r: Seq<usize>, i: int)
    requires
        query.len() > 0,
        is_ranking(query, es, r),
        0 <= i < es.len(),
        text_score(query, es[i].name) is None,
        forall|k: int| 0 <= k < es[i].keywords.len() ==> #[trigger] text_score(query, es[i].keywords[k]) is None,
    ensures
        scored(query, es[i]).score is None,
        forall|k: int| 0 <= k < r.len() ==> #[trigger] r[k] as int != i,
{
    let ks = keyword_scores(query, es[i].keywords);
    assert forall|k: int| 0 <= k < ks.len() implies #[trigger] ks[k] is None by {
        assert(text_score(query, es[i].keywords[k]) is None);
    }
    assert(relevances(query, es)[i] is None);
}

/// Two sequences ordered strictly by `outranks` that hold the same positions
/// are equal.
proof fn lemma_sorted_unique(scores: Seq<Option<int>>, a: Seq<usize>, b: Seq<usize>)
    requires
        forall|j: int, k: int|
            0 <= j < k < a.len() ==> outranks(scores, #[trigger] a[j] as int, #[trigger] a[k] as int),
        forall|j: int, k: int|
            0 <= j < k < b.len() ==> outranks(scores, #[trigger] b[j] as int, #[trigger] b[k] as int),
        forall|x: usize| a.contains(x) <==> b.contains(x),
    ensures
        a == b,
    decreases a.len(),
{
    if a.len() == 0 {
        if b.len() > 0 {
            assert(b.contains(b[0]));
        }
        assert(b.len() == 0);
    } else {
        assert(a.contains(a[0]));
        let m = choose|m: int| 0 <= m < b.len() && b[m] == a[0];
        assert(b.contains(b[0]));
        let l = choose|l: int| 0 <= l < a.len() && a[l] == b[0];
        if m > 0 {
            assert(outranks(scores, b[0] as int, b[m] as int));
            if l > 0 {
                assert(outranks(scores, a[0] as int, a[l] as int));
            }
        }
        assert(a[0] == b[0]);
        let a1 = a.drop_first();
        let b1 = b.drop_first();
        assert forall|x: usize| a1.contains(x) <==> b1.contains(x) by {
            if a1.contains(x) {
                let j = choose|j: int| 0 <= j < a1.len() && a1[j] == x;
                assert(outranks(scores, a[0] as int, a[j + 1] as int));
                assert(a.contains(x));
                let jb = choose|jb: int| 0 <= jb < b.len() && b[jb] == x;
                assert(jb != 0);
                assert(b1[jb - 1] == x);
            }
            if b1.contains(x) {
                let j = choose|j: int| 0 <= j < b1.len() && b1[j] == x;
                assert(outranks(scores, b[0] as int, b[j + 1] as int));
                assert(b.contains(x));
                let ja = choose|ja: int| 0 <= ja < a.len() && a[ja] == x;
                assert(ja != 0);
                assert(a1[ja - 1] == x);
            }
        }
        assert forall|j: int, k: int| 0 <= j < k < a1.len() implies outranks(scores, #[trigger] a1[j] as int, #[trigger] a1[k] as int) by {
            assert(outranks(scores, a[j + 1] as int, a[k + 1] as int));
        }
        assert forall|j: int, k: int| 0 <= j < k < b1.len() implies outranks(scores, #[trigger] b1[j] as int, #[trigger] b1[k] as int) by {
            assert(outranks(scores, b[j + 1] as int, b[k + 1] as int));
        }
        lemma_sorted_unique(scores, a1, b1);
        assert(a == seq![a[0]] + a1);
        assert(b == seq![b[0]] + b1);
    }
}

/// Ranking depends on the text of the entries alone: two rankings for one
/// query of stores that differ at most in their scores, as a store before and
/// after a ranking pass, are the same sequence.
pub proof fn lemma_ranking_deterministic(
    query: Seq<char>,
    es1: Seq<EntryView>,
    es2: Seq<EntryView>,
    r1: Seq<usize>,
    r2: Seq<usize>,
)
    requires
        es1.len() == es2.len(),
        forall|i: int|
            0 <= i < es1.len() ==> (#[trigger] es1[i]).name == es2[i].name && es1[i].keywords
                == es2[i].keywords,
        is_ranking(query, es1, r1),
        is_ranking(query, es2, r2),
    ensures
        r1 == r2,
{
    let s1 = relevances(query, es1);
    let s2 = relevances(query, es2);
    assert forall|i: int| 0 <= i < s1.len() implies #[trigger] s1[i] == s2[i] by {
        assert(es1[i].name == es2[i].name);
    }
    assert(s1 == s2);
    assert forall|x: usize| r1.contains(x) <==> r2.contains(x) by {
        if r1.contains(x) {
            let k = choose|k: int| 0 <= k < r1.len() && r1[k] == x;
            assert(r1[k] < s1.len() && s1[r1[k] as int] is Some);
        }
        if r2.contains(x) {
            let k = choose|k: int| 0 <= k < r2.len() && r2[k] == x;
            assert(r2[k] < s2.len() && s2[r2[k] as int] is Some);
        }
    }
    lemma_sorted_unique(s1, r1, r2);
}

} // verus!
