use policy_monitor::distance::detect_changes;
use policy_monitor::distance::edit_distance_of_chars;
use policy_monitor::distance::levenshtein_distance;
use policy_monitor::sentiment::analyze_sentiment;
use policy_monitor::sentiment::sentiment_of_folded;
use policy_monitor::sentiment::Sentiment;
use policy_monitor::terms::extract_key_terms;
use policy_monitor::terms::key_terms_of_folded;
use policy_monitor::terms::rank_terms;

fn score(counted: &Sentiment) -> f64 {
    counted.numerator() as f64 / counted.denominator() as f64
}

fn magnitude(old_text: &str, new_text: &str) -> f64 {
    let m = detect_changes(old_text, new_text);
    if m.longest == 0 {
        0.0
    } else {
        m.distance as f64 / m.longest as f64
    }
}

#[test]
fn test_sentiment_analysis() {
    let positive = "We will protect your privacy and support journalists' rights.";
    let negative = "Accounts may be suspended or terminated for violations.";

    assert!(score(&analyze_sentiment(positive)) > 0.5);
    assert!(score(&analyze_sentiment(negative)) < 0.5);
}

#[test]
fn test_levenshtein() {
    assert_eq!(levenshtein_distance("kitten", "sitting"), 3);
    assert_eq!(levenshtein_distance("hello", "hello"), 0);
}

#[test]
fn sentiment_counts_are_exact() {
    let counted = analyze_sentiment("We will protect your privacy and support journalists' rights.");
    assert_eq!(counted, Sentiment { positive: 4, negative: 0, total: 9 });
    assert_eq!(counted.numerator(), 13);
    assert_eq!(counted.denominator(), 18);
    let counted = analyze_sentiment("Accounts may be suspended or terminated for violations.");
    assert_eq!(counted, Sentiment { positive: 0, negative: 3, total: 8 });
    assert_eq!(counted.numerator(), 5);
    assert_eq!(counted.denominator(), 16);
}

#[test]
fn sentiment_of_empty_text_is_neutral() {
    for text in ["", "   ", "\n\t "] {
        let counted = analyze_sentiment(text);
        assert_eq!(counted, Sentiment { positive: 0, negative: 0, total: 0 });
        assert_eq!(score(&counted), 0.5);
    }
}

#[test]
fn sentiment_folds_case() {
    let counted = analyze_sentiment("PROTECT Safety");
    assert_eq!(counted, Sentiment { positive: 2, negative: 0, total: 2 });
    assert_eq!(score(&counted), 1.0);
    let unfolded = sentiment_of_folded("PROTECT Safety");
    assert_eq!(unfolded, Sentiment { positive: 0, negative: 0, total: 2 });
}

#[test]
fn sentiment_matches_inside_words() {
    let counted = analyze_sentiment("unhelpful urban");
    assert_eq!(counted, Sentiment { positive: 1, negative: 1, total: 2 });
    assert_eq!(score(&counted), 0.5);
    let counted = analyze_sentiment("banned harmful");
    assert_eq!(counted, Sentiment { positive: 0, negative: 2, total: 2 });
    assert_eq!(score(&counted), 0.0);
}

#[test]
fn sentiment_counts_a_word_once_for_each_lexicon() {
    let counted = analyze_sentiment("protectsafetysupport harmbanharm");
    assert_eq!(counted, Sentiment { positive: 1, negative: 1, total: 2 });
}

#[test]
fn sentiment_of_impossible_counts() {
    let broken = Sentiment { positive: 3, negative: 0, total: 1 };
    assert_eq!(broken.numerator(), 0);
    assert_eq!(broken.denominator(), 2);
}

#[test]
fn distance_of_empty_texts() {
    assert_eq!(levenshtein_distance("", ""), 0);
    assert_eq!(levenshtein_distance("", "abc"), 3);
    assert_eq!(levenshtein_distance("abcd", ""), 4);
    assert_eq!(magnitude("", ""), 0.0);
}

#[test]
fn distance_examples() {
    assert_eq!(levenshtein_distance("flaw", "lawn"), 2);
    assert_eq!(levenshtein_distance("saturday", "sunday"), 3);
    assert_eq!(levenshtein_distance("sunday", "saturday"), 3);
    assert_eq!(levenshtein_distance("a", "b"), 1);
    assert_eq!(levenshtein_distance("abc", "xyz"), 3);
    assert_eq!(levenshtein_distance("ab", "ba"), 2);
}

#[test]
fn distance_counts_characters() {
    assert_eq!(levenshtein_distance("é", "e"), 1);
    assert_eq!(levenshtein_distance("e", "é"), 1);
    assert_eq!(levenshtein_distance("é", ""), 1);
    assert_eq!(levenshtein_distance("naïve", "naive"), 1);
    assert_eq!(levenshtein_distance("日本語", "日本"), 1);
    assert_eq!(edit_distance_of_chars(&['a', 'b', 'c'], &['a', 'c']), 1);
    assert_eq!(edit_distance_of_chars(&[], &[]), 0);
    let m = detect_changes("été", "ete");
    assert_eq!(m.distance, 2);
    assert_eq!(m.longest, 3);
}

#[test]
fn magnitude_examples() {
    let m = detect_changes("kitten", "sitting");
    assert_eq!(m.distance, 3);
    assert_eq!(m.longest, 7);
    assert_eq!(magnitude("hello", "hello"), 0.0);
    assert_eq!(magnitude("abc", "xyz"), 1.0);
    assert_eq!(magnitude("", "abc"), 1.0);
    assert_eq!(magnitude("abcd", "abcf"), 0.25);
}

#[test]
fn key_terms_by_frequency() {
    let terms = extract_key_terms(
        "privacy policy privacy terms policy privacy the and with",
        10,
    );
    assert_eq!(terms, vec!["privacy".to_string(), "policy".to_string(), "terms".to_string()]);
}

#[test]
fn key_terms_ties_go_to_the_first_met() {
    let terms = extract_key_terms("zebra apple zebra apple mango", 3);
    assert_eq!(terms, vec!["zebra".to_string(), "apple".to_string(), "mango".to_string()]);
    let terms = extract_key_terms("mango zebra apple", 2);
    assert_eq!(terms, vec!["mango".to_string(), "zebra".to_string()]);
}

#[test]
fn key_terms_respect_top_n() {
    let text = "alpha beta2 gamma delta alpha beta2 alpha";
    assert_eq!(extract_key_terms(text, 0), Vec::<String>::new());
    assert_eq!(extract_key_terms(text, 1), vec!["alpha".to_string()]);
    assert_eq!(extract_key_terms(text, 2), vec!["alpha".to_string(), "beta2".to_string()]);
    assert_eq!(extract_key_terms(text, 100).len(), 4);
}

#[test]
fn key_terms_drop_short_and_stop_words() {
    let terms = extract_key_terms("with from were with the cat sat WITH From data", 10);
    assert_eq!(terms, vec!["data".to_string()]);
    assert_eq!(extract_key_terms("a an the of", 5), Vec::<String>::new());
    assert_eq!(extract_key_terms("", 5), Vec::<String>::new());
}

#[test]
fn key_terms_measure_length_in_characters() {
    assert_eq!(extract_key_terms("éé abc ééé", 5), Vec::<String>::new());
    assert_eq!(extract_key_terms("éé éééé ééé", 5), vec!["éééé".to_string()]);
    assert_eq!(extract_key_terms("cat dog policy", 5), vec!["policy".to_string()]);
    assert_eq!(extract_key_terms("abc abcd", 5), vec!["abcd".to_string()]);
}

#[test]
fn key_terms_fold_case() {
    let terms = extract_key_terms("Policy POLICY policy Terms", 5);
    assert_eq!(terms, vec!["policy".to_string(), "terms".to_string()]);
    let terms = key_terms_of_folded("Policy POLICY policy policy", 5);
    assert_eq!(terms, vec!["policy".to_string(), "Policy".to_string(), "POLICY".to_string()]);
}

#[test]
fn rank_terms_takes_words_as_given() {
    let q: Vec<Vec<char>> = ["b", "a", "b", "c", "a", "b"].iter().map(|w| w.chars().collect()).collect();
    assert_eq!(rank_terms(&q, 2), vec!["b".to_string(), "a".to_string()]);
    assert_eq!(rank_terms(&q, 5), vec!["b".to_string(), "a".to_string(), "c".to_string()]);
    assert_eq!(rank_terms(&Vec::new(), 5), Vec::<String>::new());
}
