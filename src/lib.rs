//! Indexing and ranking of application launcher entries.
//!
//! Parsed desktop descriptors become an entry store of launchable
//! applications; a query ranks that store by weighted fuzzy relevance.

mod config;
mod descriptor;
mod entry;
mod matching;
mod ranking;
mod relevance;
mod state;

pub use config::{Config, DEFAULT_DIRECTORY};
pub use descriptor::{
    entry_of, from_launchable, launchable, lemma_store_entries_launchable, parse_desktop_entries,
    parse_descriptors, parsed_all, parsed_descriptor, store_of, Descriptor, DescriptorView,
    EntryKind,
};
pub use entry::{texts_of, AppEntry, EntryView};
pub use matching::{fuzzy_score, grapheme_heads, Ranker, MAX_QUERY_CHARS, MAX_TEXT_CHARS};
pub use ranking::{
    is_order, is_ranking, lemma_name_weight, lemma_ranking_deterministic, lemma_unmatched_excluded,
    order_matches, outranks, relevances, score_values, views,
};
pub use relevance::{
    as_score, combine_scores, combined, entry_relevance, fits_score, keyword_scores,
    lemma_sum_points_bounds, lemma_sum_points_none, lemma_sum_points_single, points, relevance,
    scored, sum_points, text_score, texts_fit, NAME_WEIGHT,
};
pub use state::LauncherState;
