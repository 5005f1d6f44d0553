use language_bot::language::{bad_language, language_warning, normal_message, LanguageFilter};
use language_bot::text::{contains_text, decimal_string, chars_of};

#[test]
fn decimal_of_zero_and_small_numbers() {
    assert_eq!(decimal_string(0), "0");
    assert_eq!(decimal_string(7), "7");
    assert_eq!(decimal_string(42), "42");
    assert_eq!(decimal_string(1000), "1000");
}

#[test]
fn decimal_matches_display_at_the_limit() {
    assert_eq!(decimal_string(u64::MAX), u64::MAX.to_string());
    assert_eq!(decimal_string(1234567890123), "1234567890123");
}

#[test]
fn chars_keep_order_and_unicode() {
    assert_eq!(chars_of("héllo"), vec!['h', 'é', 'l', 'l', 'o']);
    assert!(chars_of("").is_empty());
}

#[test]
fn contains_text_agrees_with_str_contains() {
    let cases = [("hello world", "lo w"), ("hello", "hello"), ("hello", ""), ("", ""), ("", "a"),
        ("abc", "abcd"), ("aaab", "aab"), ("ümlaut ß", "t ß"), ("abc", "ac")];
    for (hay, needle) in cases {
        assert_eq!(contains_text(hay, needle), hay.contains(needle), "{hay:?} / {needle:?}");
    }
}

#[test]
fn initial_filter_words() {
    let f = LanguageFilter::new();
    assert_eq!(f.words(), vec!["shit".to_string(), "fuck".to_string(), "ass".to_string()]);
}

#[test]
fn bad_language_detects_each_word() {
    let f = LanguageFilter::new();
    assert!(bad_language("oh shit", &f));
    assert!(bad_language("FUCK fuck", &f));
    assert!(bad_language("ass", &f));
}

#[test]
fn bad_language_matches_inside_words() {
    let f = LanguageFilter::new();
    assert!(bad_language("this is a class act", &f));
    assert!(bad_language("passing", &f));
}

#[test]
fn bad_language_clean_messages() {
    let f = LanguageFilter::new();
    assert!(!bad_language("hello there", &f));
    assert!(!bad_language("", &f));
    assert!(!bad_language("SHIT", &f));
    assert!(!bad_language("a s s", &f));
}

#[test]
fn warning_mentions_author_in_bold_text() {
    assert_eq!(language_warning(6), "<@6>**, watch your language please!**");
    assert_eq!(language_warning(81384788765712384), "<@81384788765712384>**, watch your language please!**");
}

#[test]
fn normal_message_answers_only_bad_language() {
    let f = LanguageFilter::new();
    assert_eq!(normal_message("what the fuck", 12, &f), Some("<@12>**, watch your language please!**".to_string()));
    assert_eq!(normal_message("good morning", 12, &f), None);
}

#[test]
fn flagged_text_stays_flagged_when_quoted() {
    let f = LanguageFilter::new();
    assert!(bad_language("shit", &f));
    assert!(bad_language("> he said \"shit\" yesterday", &f));
}
