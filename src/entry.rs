use crate::matching::{grapheme_heads, match_chars, Ranker, MAX_QUERY_CHARS, MAX_TEXT_CHARS};
use crate::relevance::{combine_scores, entry_relevance, fits_score, keyword_scores, scored, texts_fit};
use vstd::prelude::*;

verus! {

/// What an entry holds, as a mathematical value.
pub struct EntryView {
    pub name: Seq<char>,
    pub command: Seq<char>,
    pub keywords: Seq<Seq<char>>,
    pub categories: Seq<Seq<char>>,
    pub score: Option<u128>,
}

/// The characters of each string of a list.
pub open spec fn texts_of(v: Seq<String>) -> Seq<Seq<char>> {
    v.map_values(|s: String| s@)
}

/// One launchable application of the entry store.
///
/// Besides its text, an entry keeps the characters that the matcher sees of
/// its name and of each keyword, decoded once, so that scoring never decodes
/// the same text twice.
pub struct AppEntry {
    name: String,
    command: String,
    keywords: Vec<String>,
    categories: Vec<String>,
    name_buffer: Vec<char>,
    keywords_buffers: Vec<Vec<char>>,
    score: Option<u128>,
}

impl View for AppEntry {
    type V = EntryView;

    closed spec fn view(&self) -> EntryView {
        EntryView {
            name: self.name@,
            command: self.command@,
            keywords: texts_of(self.keywords@),
            categories: texts_of(self.categories@),
            score: self.score,
        }
    }
}

impl AppEntry {
    #[verifier::type_invariant]
    closed spec fn buffers_in_sync(&self) -> bool {
        &&& self.name_buffer@ == grapheme_heads(self.name@)
        &&& self.keywords_buffers@.len() == self.keywords@.len()
        &&& forall|i: int|
            0 <= i < self.keywords@.len() ==> #[trigger] self.keywords_buffers@[i]@
                == grapheme_heads(self.keywords@[i]@)
    }

    /// The display name.
    pub fn name(&self) -> (r: &str)
        ensures
            r@ == self@.name,
    {
        self.name.as_str()
    }

    /// The command that launches the application.
    pub fn command(&self) -> (r: &str)
        ensures
            r@ == self@.command,
    {
        self.command.as_str()
    }

    /// The supplementary search terms.
    pub fn keywords(&self) -> (r: &Vec<String>)
        ensures
            texts_of(r@) == self@.keywords,
    {
        &self.keywords
    }

    /// The classification tags.
    pub fn categories(&self) -> (r: &Vec<String>)
        ensures
            texts_of(r@) == self@.categories,
    {
        &self.categories
    }

    /// The relevance of the last scoring pass, if the entry matched it.
    pub fn score(&self) -> (r: Option<u128>)
        ensures
            r == self@.score,
    {
        self.score
    }

    /// Whether the name and every keyword are short enough for the matcher.
    pub fn fits_matcher(&self) -> (r: bool)
        ensures
            r == texts_fit(self@),
    {
        proof {
            use_type_invariant(self);
        }
        if self.name_buffer.len() > MAX_TEXT_CHARS {
            return false;
        }
        let ghost kws = self@.keywords;
        let n = self.keywords_buffers.len();
        assert forall|j: int| 0 <= j < n implies #[trigger] self.keywords_buffers@[j]@ == grapheme_heads(kws[j]) by {
            assert(kws[j] == self.keywords@[j]@);
        }
        for i in 0..n
            invariant
                n == self.keywords_buffers@.len(),
                n == kws.len(),
                kws == self@.keywords,
                grapheme_heads(self@.name).len() <= MAX_TEXT_CHARS,
                forall|j: int| 0 <= j < n ==> #[trigger] self.keywords_buffers@[j]@ == grapheme_heads(kws[j]),
                forall|j: int| 0 <= j < i ==> grapheme_heads(#[trigger] kws[j]).len() <= MAX_TEXT_CHARS,
        {
            if self.keywords_buffers[i].len() > MAX_TEXT_CHARS {
                return false;
            }
        }
        true
    }

    /// An entry that has not been scored yet.
    pub fn new(name: String, command: String, keywords: Vec<String>, categories: Vec<String>) -> (r:
        AppEntry)
        ensures
            r@.name == name@,
            r@.command == command@,
            r@.keywords == texts_of(keywords@),
            r@.categories == texts_of(categories@),
            r@.score is None,
    {
        let name_buffer = match_chars(name.as_str());
        let mut keywords_buffers: Vec<Vec<char>> = Vec::new();
        let n = keywords.len();
        for i in 0..n
            invariant
                n == keywords@.len(),
                keywords_buffers@.len() == i,
                forall|j: int| 0 <= j < i ==> #[trigger] keywords_buffers@[j]@ == grapheme_heads(keywords@[j]@),
        {
            keywords_buffers.push(match_chars(keywords[i].as_str()));
        }
        AppEntry { name, command, keywords, categories, name_buffer, keywords_buffers, score: None }
    }

    /// Scores the entry against `query`, replacing the score of any earlier
    /// query.
    pub fn compute_score(&mut self, ranker: &mut Ranker, query: &str)
        requires
            query@.len() <= MAX_QUERY_CHARS,
            texts_fit(old(self)@),
        ensures
            final(self)@ == scored(query@, old(self)@),
            fits_score(entry_relevance(query@, old(self)@)),
    {
        proof {
            use_type_invariant(&*self);
        }
        if query.is_empty() {
            self.score = Some(0);
            return;
        }
        let name_score = ranker.score(query, self.name_buffer.as_slice());
        let ghost kws = self@.keywords;
        let mut keyword_results: Vec<Option<u32>> = Vec::new();
        let n = self.keywords_buffers.len();
        assert forall|j: int| 0 <= j < n implies #[trigger] self.keywords_buffers@[j]@ == grapheme_heads(kws[j]) by {
            assert(kws[j] == self.keywords@[j]@);
        }
        for i in 0..n
            invariant
                n == kws.len(),
                n == self.keywords_buffers@.len(),
                kws == self@.keywords,
                forall|j: int| 0 <= j < n ==> #[trigger] self.keywords_buffers@[j]@ == grapheme_heads(kws[j]),
                texts_fit(self@),
                query@.len() <= MAX_QUERY_CHARS,
                keyword_results@ == keyword_scores(query@, kws).take(i as int),
        {
            keyword_results.push(ranker.score(query, self.keywords_buffers[i].as_slice()));
            assert(keyword_results@ == keyword_scores(query@, kws).take(i + 1));
        }
        assert(keyword_results@ == keyword_scores(query@, kws));
        self.score = combine_scores(name_score, &keyword_results);
    }
}

impl Default for AppEntry {
    /// An entry with every text empty, not scored.
    fn default() -> (r: AppEntry)
        ensures
            r@.name.len() == 0,
            r@.command.len() == 0,
            r@.keywords.len() == 0,
            r@.categories.len() == 0,
            r@.score is None,
    {
        AppEntry::new(String::new(), String::new(), Vec::new(), Vec::new())
    }
}

} // verus!
