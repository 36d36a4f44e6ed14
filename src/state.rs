use crate::entry::{AppEntry, EntryView};
use crate::matching::{Ranker, MAX_QUERY_CHARS};
use crate::ranking::{is_ranking, views};
use crate::relevance::{entry_relevance, fits_score, scored, texts_fit};
use vstd::prelude::*;

verus! {

/// The search state of a launcher session: the entry store, the current
/// query and the ranked positions of the entries that match it.
pub struct LauncherState {
    entries: Vec<AppEntry>,
    query: String,
    results: Vec<usize>,
    ranker: Ranker,
}

impl LauncherState {
    /// The entries, with the scores of the current query.
    pub closed spec fn store(&self) -> Seq<EntryView> {
        views(self.entries@)
    }

    pub closed spec fn query_text(&self) -> Seq<char> {
        self.query@
    }

    /// The positions in the store of the entries that match, best first.
    pub closed spec fn ranked(&self) -> Seq<usize> {
        self.results@
    }

    /// Every entry can be scored.
    pub open spec fn wf(&self) -> bool {
        forall|i: int| 0 <= i < self.store().len() ==> texts_fit(#[trigger] self.store()[i])
    }

    /// A session over `entries`, searched with the empty query, which keeps
    /// every entry in store order.
    pub fn new(entries: Vec<AppEntry>) -> (r: LauncherState)
        requires
            forall|i: int| 0 <= i < entries@.len() ==> texts_fit(#[trigger] entries@[i]@),
        ensures
            r.wf(),
            r.query_text().len() == 0,
            r.store().len() == entries@.len(),
            forall|i: int|
                0 <= i < entries@.len() ==> #[trigger] r.store()[i] == scored(
                    Seq::empty(),
                    entries@[i]@,
                ),
            is_ranking(Seq::empty(), views(entries@), r.ranked()),
    {
        let mut state = LauncherState {
            entries,
            query: String::new(),
            results: Vec::new(),
            ranker: Ranker::new(),
        };
        assert forall|i: int| 0 <= i < state.store().len() implies texts_fit(#[trigger] state.store()[i]) by {
            assert(state.store()[i] == state.entries@[i]@);
        }
        state.search(String::new());
        state
    }

    /// Replaces the query and ranks the store against it.
    pub fn search(&mut self, query: String)
        requires
            old(self).wf(),
            query@.len() <= MAX_QUERY_CHARS,
        ensures
            final(self).wf(),
            final(self).query_text() == query@,
            final(self).store().len() == old(self).store().len(),
            forall|i: int|
                0 <= i < old(self).store().len() ==> #[trigger] final(self).store()[i] == scored(
                    query@,
                    old(self).store()[i],
                ),
            forall|i: int|
                0 <= i < old(self).store().len() ==> fits_score(
                    #[trigger] entry_relevance(query@, old(self).store()[i]),
                ),
            is_ranking(query@, old(self).store(), final(self).ranked()),
    {
        assert forall|i: int| 0 <= i < self.entries@.len() implies texts_fit(#[trigger] self.entries@[i]@) by {
            assert(self.store()[i] == self.entries@[i]@);
        }
        let results = self.ranker.rank(&mut self.entries, query.as_str());
        self.results = results;
        self.query = query;
        assert forall|i: int| 0 <= i < self.store().len() implies texts_fit(#[trigger] self.store()[i]) by {
            assert(self.store()[i] == self.entries@[i]@);
        }
    }

    /// The entry store.
    pub fn entries(&self) -> (r: &Vec<AppEntry>)
        ensures
            views(r@) == self.store(),
    {
        &self.entries
    }

    /// The current query.
    pub fn query(&self) -> (r: &str)
        ensures
            r@ == self.query_text(),
    {
        self.query.as_str()
    }

    /// The positions of the matching entries, best first.
    pub fn results(&self) -> (r: &Vec<usize>)
        ensures
            r@ == self.ranked(),
    {
        &self.results
    }
}

} // verus!
