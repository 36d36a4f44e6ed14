use nucleo_matcher::pattern::{CaseMatching, Normalization, Pattern};
use nucleo_matcher::{Config, Matcher, Utf32Str};
use vstd::prelude::*;

verus! {

/// The longest query, in characters, that the matcher scores. The matcher
/// sums the score of one word in a `u16`: its first matched character adds at
/// most 36 and each further one at most 26, so a word of this many characters
/// scores at most 53,258. The words' scores are then summed in a `u32`, which
/// this many words cannot overflow either.
pub const MAX_QUERY_CHARS: usize = 2048;

/// The longest text, in characters, that the matcher accepts.
pub const MAX_TEXT_CHARS: usize = 4294967295;

#[verifier::external_type_specification]
#[verifier::external_body]
pub struct ExMatcher(Matcher);

/// The fuzzy score of the characters `text` for `query`, or `None` where they
/// do not match: nucleo's smart-case, smart-normalizing pattern matcher.
pub uninterp spec fn fuzzy_score(query: Seq<char>, text: Seq<char>) -> Option<u32>;

/// The characters that the matcher sees of a text: the first code point of
/// each grapheme cluster, as nucleo decodes text for matching.
pub uninterp spec fn grapheme_heads(text: Seq<char>) -> Seq<char>;

/// Relies on nucleo_matcher::chars::graphemes: the first code point of each
/// extended grapheme cluster of `text`, which depends on the text alone.
/// Entries decode their text with it once, as nucleo's own Utf32Str::new does
/// on every call for text that is not ASCII.
#[verifier::external_body]
pub(crate) fn match_chars(text: &str) -> (r: Vec<char>)
    ensures
        r@ == grapheme_heads(text@),
{
    nucleo_matcher::chars::graphemes(text).collect()
}

/// The fuzzy matcher shared by every scoring pass, with nucleo's default
/// configuration. Its configuration is never changed afterwards.
pub struct Ranker {
    matcher: Matcher,
}

/// Relies on nucleo_matcher::Matcher::new with Config::DEFAULT: a matcher
/// with the default scoring configuration and a fresh scratch space.
#[verifier::external_body]
fn default_matcher() -> Matcher {
    Matcher::new(Config::DEFAULT)
}

/// Relies on nucleo_matcher::pattern::Pattern::score, for the pattern that
/// Pattern::parse builds from `query` with smart case matching and smart
/// normalization. The score depends on `query` and `text` alone: each atom
/// sets the matcher's case and normalization settings itself, and the rest of
/// the configuration is the default one. The bounds keep the matcher's length
/// assertion, its `u16` score of one word and its `u32` sum of the words'
/// scores from failing.
#[verifier::external_body]
fn pattern_score(matcher: &mut Matcher, query: &str, text: &[char]) -> (r: Option<u32>)
    requires
        query@.len() <= MAX_QUERY_CHARS,
        text@.len() <= MAX_TEXT_CHARS,
    ensures
        r == fuzzy_score(query@, text@),
{
    Pattern::parse(query, CaseMatching::Smart, Normalization::Smart).score(
        Utf32Str::Unicode(text),
        matcher,
    )
}

impl Ranker {
    /// A ranker with the default matcher configuration.
    pub fn new() -> (r: Ranker) {
        Ranker { matcher: default_matcher() }
    }

    /// The fuzzy score of `text` for `query`.
    pub(crate) fn score(&mut self, query: &str, text: &[char]) -> (r: Option<u32>)
        requires
            query@.len() <= MAX_QUERY_CHARS,
            text@.len() <= MAX_TEXT_CHARS,
        ensures
            r == fuzzy_score(query@, text@),
    {
        pattern_score(&mut self.matcher, query, text)
    }
}

} // verus!
