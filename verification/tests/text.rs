use policy_monitor::text::char_is_whitespace;
use policy_monitor::text::chars_of;
use policy_monitor::text::contains;
use policy_monitor::text::is_blank_text;
use policy_monitor::text::same_text;
use policy_monitor::text::split_whitespace;
use policy_monitor::text::text_not_after;

fn chars(s: &str) -> Vec<char> {
    s.chars().collect()
}

#[test]
fn white_space_is_what_the_standard_library_says() {
    let mut c = 0u32;
    while c <= 0x10ffff {
        if let Some(ch) = char::from_u32(c) {
            assert_eq!(char_is_whitespace(ch), ch.is_whitespace(), "U+{:04X}", c);
        }
        c += 1;
    }
}

#[test]
fn chars_of_keeps_every_character() {
    assert_eq!(chars_of(""), Vec::<char>::new());
    assert_eq!(chars_of("aé\u{1F600}"), vec!['a', 'é', '\u{1F600}']);
}

#[test]
fn split_whitespace_gives_the_words() {
    for text in ["", " ", "a", " a ", "a b", "  ab\tcd\n\nef  ", "x\u{2003}y\u{85}z", "é  ü"] {
        let expected: Vec<Vec<char>> = text.split_whitespace().map(chars).collect();
        assert_eq!(split_whitespace(&chars(text)), expected, "{:?}", text);
    }
    assert_eq!(split_whitespace(&chars(" ab  c ")), vec![vec!['a', 'b'], vec!['c']]);
}

#[test]
fn contains_finds_runs() {
    assert!(contains(&chars("suspended"), &chars("suspend")));
    assert!(contains(&chars("unsuspended"), &chars("suspend")));
    assert!(contains(&chars("abc"), &chars("c")));
    assert!(contains(&chars("abc"), &chars("abc")));
    assert!(contains(&chars("abc"), &chars("")));
    assert!(contains(&chars(""), &chars("")));
    assert!(!contains(&chars("abc"), &chars("abcd")));
    assert!(!contains(&chars("abc"), &chars("ac")));
    assert!(!contains(&chars(""), &chars("a")));
    assert!(!contains(&chars("aab"), &chars("aba")));
}

#[test]
fn blank_texts() {
    assert!(is_blank_text(&chars("")));
    assert!(is_blank_text(&chars(" \n\t\u{a0}")));
    assert!(!is_blank_text(&chars(" a ")));
}

#[test]
fn same_text_compares_whole_texts() {
    assert!(same_text("", ""));
    assert!(same_text("twitter", "twitter"));
    assert!(!same_text("twitter", "twitte"));
    assert!(!same_text("twitter", "Twitter"));
    assert!(!same_text("é", "e"));
}

#[test]
fn texts_are_ordered_as_str_orders_them() {
    let samples = ["", "a", "A", "aa", "ab", "b", "ba", "é", "e", "z", "日本", "日", "\u{10000}", "\u{ffff}"];
    for a in samples {
        for b in samples {
            assert_eq!(text_not_after(a, b), a <= b, "{:?} {:?}", a, b);
        }
    }
    assert!(text_not_after("alpha", "alpha"));
    assert!(text_not_after("alpha", "beta"));
    assert!(!text_not_after("beta", "alpha"));
    assert!(text_not_after("alp", "alpha"));
    assert!(!text_not_after("alpha", "alp"));
}
