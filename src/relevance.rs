use crate::entry::EntryView;
use crate::matching::{fuzzy_score, grapheme_heads, MAX_TEXT_CHARS};
use vstd::prelude::*;

verus! {

/// How much more a match in the name counts than one in a keyword.
pub const NAME_WEIGHT: u128 = 5;

/// What one fuzzy result adds to a relevance: its score, or nothing.
pub open spec fn points(s: Option<u32>) -> int {
    match s {
        Some(v) => v as int,
        None => 0,
    }
}

/// The sum of the scores of the fuzzy results that matched.
pub open spec fn sum_points(ss: Seq<Option<u32>>) -> int
    decreases ss.len(),
{
    if ss.len() == 0 {
        0
    } else {
        sum_points(ss.drop_last()) + points(ss.last())
    }
}

/// The aggregate of the fuzzy results of a name and its keywords: the name's
/// score weighted, plus the keywords' scores; `None` where nothing matched.
pub open spec fn combined(name: Option<u32>, keywords: Seq<Option<u32>>) -> Option<int> {
    if name is Some || exists|i: int| 0 <= i < keywords.len() && #[trigger] keywords[i] is Some {
        Some(NAME_WEIGHT * points(name) + sum_points(keywords))
    } else {
        None
    }
}

/// A relevance as the score an entry keeps.
pub open spec fn as_score(v: Option<int>) -> Option<u128> {
    match v {
        Some(x) => Some(x as u128),
        None => None,
    }
}

/// Whether a relevance, if any, fits a `u128`.
pub open spec fn fits_score(v: Option<int>) -> bool {
    v matches Some(x) ==> 0 <= x <= u128::MAX
}

/// The fuzzy result of a text for `query`, on the characters the matcher sees.
pub open spec fn text_score(query: Seq<char>, text: Seq<char>) -> Option<u32> {
    fuzzy_score(query, grapheme_heads(text))
}

/// The fuzzy results of each keyword for `query`.
pub open spec fn keyword_scores(query: Seq<char>, keywords: Seq<Seq<char>>) -> Seq<Option<u32>> {
    keywords.map_values(|k: Seq<char>| text_score(query, k))
}

/// The relevance of an entry with this name and these keywords for `query`.
/// The empty query keeps every entry, with relevance zero.
pub open spec fn relevance(query: Seq<char>, name: Seq<char>, keywords: Seq<Seq<char>>) -> Option<
    int,
> {
    if query.len() == 0 {
        Some(0)
    } else {
        combined(text_score(query, name), keyword_scores(query, keywords))
    }
}

pub open spec fn entry_relevance(query: Seq<char>, e: EntryView) -> Option<int> {
    relevance(query, e.name, e.keywords)
}

/// The entry after a scoring pass for `query`: its text unchanged, its score
/// the relevance.
pub open spec fn scored(query: Seq<char>, e: EntryView) -> EntryView {
    EntryView { score: as_score(entry_relevance(query, e)), ..e }
}

/// Whether the matcher accepts every text of the entry.
pub open spec fn texts_fit(e: EntryView) -> bool {
    &&& grapheme_heads(e.name).len() <= MAX_TEXT_CHARS
    &&& forall|i: int|
        0 <= i < e.keywords.len() ==> grapheme_heads(#[trigger] e.keywords[i]).len() <= MAX_TEXT_CHARS
}

pub proof fn lemma_sum_points_bounds(ss: Seq<Option<u32>>)
    ensures
        0 <= sum_points(ss) <= ss.len() * (u32::MAX as int),
    decreases ss.len(),
{
    if ss.len() > 0 {
        lemma_sum_points_bounds(ss.drop_last());
    }
}

/// Where every result but the one at `k` is `None`, the sum is that result's
/// score.
pub proof fn lemma_sum_points_single(ss: Seq<Option<u32>>, k: int)
    requires
        0 <= k < ss.len(),
        forall|i: int| 0 <= i < ss.len() && i != k ==> #[trigger] ss[i] is None,
    ensures
        sum_points(ss) == points(ss[k]),
    decreases ss.len(),
{
    let init = ss.drop_last();
    let last = ss.len() - 1;
    assert(ss.last() == ss[last]);
    if k == last {
        lemma_sum_points_none(init);
    } else {
        assert forall|i: int| 0 <= i < init.len() && i != k implies #[trigger] init[i] is None by {
            assert(init[i] == ss[i]);
        }
        lemma_sum_points_single(init, k);
        assert(init[k] == ss[k]);
    }
}

/// Where every result is `None`, the sum is zero.
pub proof fn lemma_sum_points_none(ss: Seq<Option<u32>>)
    requires
        forall|i: int| 0 <= i < ss.len() ==> #[trigger] ss[i] is None,
    ensures
        sum_points(ss) == 0,
    decreases ss.len(),
{
    if ss.len() > 0 {
        let init = ss.drop_last();
        assert forall|i: int| 0 <= i < init.len() implies #[trigger] init[i] is None by {
            assert(init[i] == ss[i]);
        }
        lemma_sum_points_none(init);
        assert(ss.last() == ss[ss.len() - 1]);
    }
}

/// Combines the fuzzy result of a name with those of its keywords into the
/// entry's relevance.
pub fn combine_scores(name: Option<u32>, keywords: &Vec<Option<u32>>) -> (r: Option<u128>)
    ensures
        r == as_score(combined(name, keywords@)),
        fits_score(combined(name, keywords@)),
{
    let mut matched = name.is_some();
    let mut total: u128 = match name {
        Some(s) => NAME_WEIGHT * (s as u128),
        None => 0,
    };
    let ghost name_part = NAME_WEIGHT * points(name);
    let n = keywords.len();
    for i in 0..n
        invariant
            n == keywords@.len(),
            0 <= name_part <= NAME_WEIGHT * (u32::MAX as int),
            name_part == NAME_WEIGHT * points(name),
            total == name_part + sum_points(keywords@.take(i as int)),
            matched == (name is Some || exists|j: int| 0 <= j < i && #[trigger] keywords@[j] is Some),
    {
        let ghost before = keywords@.take(i as int);
        proof {
            lemma_sum_points_bounds(before);
            assert(keywords@.take(i + 1).drop_last() == before);
            assert(keywords@.take(i + 1).last() == keywords@[i as int]);
            assert(i * (u32::MAX as int) <= 0x1_0000_0000_0000_0000 * 0x1_0000_0000) by (nonlinear_arith)
                requires
                    i <= usize::MAX,
            ;
        }
        if let Some(s) = keywords[i] {
            matched = true;
            total = total + s as u128;
        }
    }
    assert(keywords@.take(n as int) == keywords@);
    if matched {
        Some(total)
    } else {
        None
    }
}

} // verus!
