//! Sentiment of a text: the share of its words that sound protective,
//! against the share that sound restrictive.

use crate::text::chars_of;
use crate::text::contains;
use crate::text::contains_text;
use crate::text::lowercase;
use crate::text::split_whitespace;
use crate::text::to_lowercase;
use crate::text::views;
use crate::text::words;
use vstd::prelude::*;

verus! {

/// The words that count for a text.
pub open spec fn positive_words() -> Seq<Seq<char>> {
    seq![
        "protect"@,
        "safety"@,
        "support"@,
        "right"@,
        "privacy"@,
        "transparent"@,
        "clear"@,
        "fair"@,
        "help"@,
        "secure"@,
    ]
}

/// The words that count against a text.
pub open spec fn negative_words() -> Seq<Seq<char>> {
    seq![
        "ban"@,
        "prohibit"@,
        "restrict"@,
        "remove"@,
        "suspend"@,
        "terminate"@,
        "violation"@,
        "penalty"@,
        "liable"@,
        "harm"@,
    ]
}

/// Whether one of the first `upto` entries of `lexicon` occurs somewhere inside `word`.
pub open spec fn matches_first(word: Seq<char>, lexicon: Seq<Seq<char>>, upto: int) -> bool {
    exists|k: int| 0 <= k < upto && k < lexicon.len() && contains_text(word, #[trigger] lexicon[k])
}

/// Whether an entry of `lexicon` occurs somewhere inside `word`: the word
/// need not be the entry, it is enough that it holds it.
pub open spec fn matches_lexicon(word: Seq<char>, lexicon: Seq<Seq<char>>) -> bool {
    matches_first(word, lexicon, lexicon.len() as int)
}

/// How many of `tokens` match `lexicon`.
pub open spec fn count_matching(tokens: Seq<Seq<char>>, lexicon: Seq<Seq<char>>) -> nat
    decreases tokens.len(),
{
    if tokens.len() == 0 {
        0
    } else {
        count_matching(tokens.drop_last(), lexicon) + if matches_lexicon(tokens.last(), lexicon) {
            1nat
        } else {
            0nat
        }
    }
}

/// What was counted in a text: its words, and how many of them match the
/// positive and the negative lexicon. The score of the text is
/// `((positive - negative) / total + 1) / 2`, and one half where the text has
/// no word.
#[derive(Clone, Copy, Debug, PartialEq, Eq)]
pub struct Sentiment {
    pub positive: usize,
    pub negative: usize,
    pub total: usize,
}

impl Sentiment {
    /// The numerator of the score, as a fraction of `score_denominator`.
    pub open spec fn score_numerator(self) -> int {
        if self.total == 0 {
            1
        } else {
            self.total + self.positive - self.negative
        }
    }

    /// The denominator of the score.
    pub open spec fn score_denominator(self) -> int {
        if self.total == 0 {
            2
        } else {
            2 * self.total
        }
    }

    /// Whether the counts are those of some text: no more matches than
    /// words.
    pub open spec fn wf(self) -> bool {
        self.positive <= self.total && self.negative <= self.total
    }

    /// The numerator of the score. Counts that are those of no text, with
    /// more matches than words, give 0.
    pub fn numerator(&self) -> (n: u128)
        ensures
            self.wf() ==> n == self.score_numerator(),
            !self.wf() ==> n == 0,
    {
        if self.positive > self.total || self.negative > self.total {
            0
        } else if self.total == 0 {
            1
        } else {
            self.total as u128 + self.positive as u128 - self.negative as u128
        }
    }

    /// The denominator of the score.
    pub fn denominator(&self) -> (d: u128)
        ensures
            d == self.score_denominator(),
            d > 0,
    {
        if self.total == 0 {
            2
        } else {
            2 * (self.total as u128)
        }
    }
}

/// The words of a lexicon as characters.
fn lexicon_of(entries: &[&str; 10]) -> (lexicon: Vec<Vec<char>>)
    ensures
        lexicon@.len() == 10,
        forall|k: int| 0 <= k < 10 ==> (#[trigger] lexicon@[k])@ == entries@[k]@,
{
    let mut lexicon: Vec<Vec<char>> = Vec::new();
    let mut k: usize = 0;
    while k < 10
        invariant
            k <= 10,
            lexicon@.len() == k,
            forall|j: int| 0 <= j < k ==> (#[trigger] lexicon@[j])@ == entries@[j]@,
        decreases 10 - k,
    {
        lexicon.push(chars_of(entries[k]));
        k += 1;
    }
    lexicon
}

/// Whether an entry of `lexicon` occurs inside `word`.
fn matches_any(word: &Vec<char>, lexicon: &Vec<Vec<char>>) -> (found: bool)
    ensures
        found == matches_lexicon(word@, views(lexicon@)),
{
    let n = lexicon.len();
    let mut k: usize = 0;
    while k < n
        invariant
            n == lexicon@.len(),
            k <= n,
            !matches_first(word@, views(lexicon@), k as int),
        decreases n - k,
    {
        if contains(word, &lexicon[k]) {
            proof {
                assert(views(lexicon@)[k as int] == lexicon@[k as int]@);
            }
            return true;
        }
        proof {
            assert(views(lexicon@)[k as int] == lexicon@[k as int]@);
        }
        k += 1;
    }
    false
}

/// Counts the words of a text that is in lower case already.
pub fn sentiment_of_folded(folded: &str) -> (counted: Sentiment)
    ensures
        counted.total == words(folded@).len(),
        counted.positive == count_matching(words(folded@), positive_words()),
        counted.negative == count_matching(words(folded@), negative_words()),
        counted.wf(),
{
    let positive = lexicon_of(
        &[
            "protect",
            "safety",
            "support",
            "right",
            "privacy",
            "transparent",
            "clear",
            "fair",
            "help",
            "secure",
        ],
    );
    let negative = lexicon_of(
        &[
            "ban",
            "prohibit",
            "restrict",
            "remove",
            "suspend",
            "terminate",
            "violation",
            "penalty",
            "liable",
            "harm",
        ],
    );
    proof {
        assert(views(positive@) =~= positive_words());
        assert(views(negative@) =~= negative_words());
    }
    let chars = chars_of(folded);
    let tokens = split_whitespace(&chars);
    let n = tokens.len();
    let ghost all = views(tokens@);
    let mut positive_count: usize = 0;
    let mut negative_count: usize = 0;
    let mut i: usize = 0;
    proof {
        assert(all.take(0) =~= Seq::empty());
    }
    while i < n
        invariant
            n == tokens@.len(),
            i <= n,
            all == views(tokens@),
            views(positive@) == positive_words(),
            views(negative@) == negative_words(),
            positive_count == count_matching(all.take(i as int), positive_words()),
            negative_count == count_matching(all.take(i as int), negative_words()),
            positive_count <= i,
            negative_count <= i,
        decreases n - i,
    {
        proof {
            assert(all.take(i + 1).drop_last() =~= all.take(i as int));
            assert(all.take(i + 1).last() == tokens@[i as int]@);
        }
        if matches_any(&tokens[i], &positive) {
            positive_count += 1;
        }
        if matches_any(&tokens[i], &negative) {
            negative_count += 1;
        }
        i += 1;
    }
    proof {
        assert(all.take(n as int) =~= all);
    }
    Sentiment { positive: positive_count, negative: negative_count, total: n }
}

/// Counts the words of `text`, whatever their case, that match the positive
/// and the negative lexicon.
pub fn analyze_sentiment(text: &str) -> (counted: Sentiment)
    ensures
        counted.total == words(lowercase(text@)).len(),
        counted.positive == count_matching(words(lowercase(text@)), positive_words()),
        counted.negative == count_matching(words(lowercase(text@)), negative_words()),
        counted.wf(),
{
    let folded = to_lowercase(text);
    sentiment_of_folded(folded.as_str())
}

/// No more words match a lexicon than there are words.
pub proof fn count_matching_bounded(tokens: Seq<Seq<char>>, lexicon: Seq<Seq<char>>)
    ensures
        count_matching(tokens, lexicon) <= tokens.len(),
        (forall|i: int| 0 <= i < tokens.len() ==> matches_lexicon(#[trigger] tokens[i], lexicon))
            ==> count_matching(tokens, lexicon) == tokens.len(),
        (forall|i: int| 0 <= i < tokens.len() ==> !matches_lexicon(#[trigger] tokens[i], lexicon))
            ==> count_matching(tokens, lexicon) == 0,
    decreases tokens.len(),
{
    if tokens.len() > 0 {
        count_matching_bounded(tokens.drop_last(), lexicon);
        assert forall|i: int| 0 <= i < tokens.len() - 1 implies tokens.drop_last()[i]
            == tokens[i] by {}
        if forall|i: int| 0 <= i < tokens.len() ==> matches_lexicon(#[trigger] tokens[i], lexicon) {
            assert forall|i: int| 0 <= i < tokens.drop_last().len() implies matches_lexicon(
                #[trigger] tokens.drop_last()[i],
                lexicon,
            ) by {
                assert(tokens.drop_last()[i] == tokens[i]);
            }
        }
        if forall|i: int|
            0 <= i < tokens.len() ==> !matches_lexicon(#[trigger] tokens[i], lexicon) {
            assert forall|i: int| 0 <= i < tokens.drop_last().len() implies !matches_lexicon(
                #[trigger] tokens.drop_last()[i],
                lexicon,
            ) by {
                assert(tokens.drop_last()[i] == tokens[i]);
            }
        }
    }
}

/// The score lies between 0 and 1. A text without words scores one half. A
/// text with positive matches and no negative one scores above one half, and
/// one with negative matches and no positive one below.
pub proof fn score_bounds(counted: Sentiment)
    requires
        counted.wf(),
    ensures
        0 <= counted.score_numerator() <= counted.score_denominator(),
        counted.total == 0 ==> 2 * counted.score_numerator() == counted.score_denominator(),
        counted.positive > 0 && counted.negative == 0 ==> 2 * counted.score_numerator()
            > counted.score_denominator(),
        counted.negative > 0 && counted.positive == 0 ==> 2 * counted.score_numerator()
            < counted.score_denominator(),
        counted.positive == counted.negative ==> 2 * counted.score_numerator()
            == counted.score_denominator(),
{
}

/// A text whose every word matches the positive lexicon and none the
/// negative one has the score 1; with the lexicons exchanged, the score 0.
pub proof fn one_sided_text_scores_at_the_end(tokens: Seq<Seq<char>>)
    requires
        tokens.len() > 0,
    ensures
        (forall|i: int|
            0 <= i < tokens.len() ==> matches_lexicon(#[trigger] tokens[i], positive_words())
                && !matches_lexicon(tokens[i], negative_words())) ==> count_matching(
            tokens,
            positive_words(),
        ) == tokens.len() && count_matching(tokens, negative_words()) == 0,
        (forall|i: int|
            0 <= i < tokens.len() ==> matches_lexicon(#[trigger] tokens[i], negative_words())
                && !matches_lexicon(tokens[i], positive_words())) ==> count_matching(
            tokens,
            negative_words(),
        ) == tokens.len() && count_matching(tokens, positive_words()) == 0,
{
    count_matching_bounded(tokens, positive_words());
    count_matching_bounded(tokens, negative_words());
}

} // verus!
