use tantiny::error::Error;
use tantiny::helpers::{Language, LanguageWrapper};
use tantiny::tokenizer::Tokenizer;

fn terms(tokenizer: &Tokenizer, text: &str) -> Vec<String> {
    tokenizer.extract_terms(text.to_string()).unwrap()
}

#[test]
fn simple_tokenizer_splits_and_lowercases() {
    let tokenizer = Tokenizer::new_simple().unwrap();
    assert_eq!(terms(&tokenizer, "Hello, happy TAX payer!"), vec!["hello", "happy", "tax", "payer"]);
}

#[test]
fn simple_tokenizer_drops_long_tokens() {
    let tokenizer = Tokenizer::new_simple().unwrap();
    let kept = "a".repeat(40);
    let dropped = "a".repeat(41);
    assert_eq!(
        terms(&tokenizer, &format!("Hello, {} {} World!", kept, dropped)),
        vec!["hello".to_string(), kept, "world".to_string()]
    );
}

#[test]
fn stemmer_tokenizer_drops_long_tokens() {
    let tokenizer = Tokenizer::new_stemmer("en".to_string()).unwrap();
    let kept = "b".repeat(40);
    let dropped = "b".repeat(41);
    assert_eq!(terms(&tokenizer, &format!("{} {} {}", dropped, kept, dropped)), vec![kept]);
}

#[test]
fn long_token_limit_counts_bytes() {
    let tokenizer = Tokenizer::new_simple().unwrap();
    let forty_bytes = "\u{e9}".repeat(20);
    let forty_two_bytes = "\u{e9}".repeat(21);
    assert_eq!(
        terms(&tokenizer, &format!("{} {}", forty_bytes, forty_two_bytes)),
        vec![forty_bytes]
    );
}

#[test]
fn stemmer_tokenizer_stems_english() {
    let tokenizer = Tokenizer::new_stemmer("en".to_string()).unwrap();
    assert_eq!(terms(&tokenizer, "Running dogs jumped"), vec!["run", "dog", "jump"]);
}

#[test]
fn stemmer_tokenizer_refuses_unknown_language() {
    assert!(matches!(Tokenizer::new_stemmer("xx".to_string()), Err(Error::UnsupportedLanguage)));
    assert!(matches!(Tokenizer::new_stemmer("eng".to_string()), Err(Error::UnsupportedLanguage)));
    assert!(matches!(Tokenizer::new_stemmer(String::new()), Err(Error::UnsupportedLanguage)));
}

#[test]
fn ngram_tokenizer_emits_all_ngrams() {
    let tokenizer = Tokenizer::new_ngram(2, 3, false).unwrap();
    assert_eq!(terms(&tokenizer, "abcd"), vec!["ab", "abc", "bc", "bcd", "cd"]);
}

#[test]
fn ngram_tokenizer_prefix_only() {
    let tokenizer = Tokenizer::new_ngram(1, 3, true).unwrap();
    assert_eq!(terms(&tokenizer, "abcd"), vec!["a", "ab", "abc"]);
}

#[test]
fn ngram_tokenizer_refuses_bad_sizes() {
    assert!(matches!(Tokenizer::new_ngram(0, 3, false), Err(Error::ConversionFailure)));
    assert!(matches!(Tokenizer::new_ngram(3, 2, false), Err(Error::ConversionFailure)));
    assert!(matches!(Tokenizer::new_ngram(-1, 2, true), Err(Error::ConversionFailure)));
}

#[test]
fn extract_terms_of_empty_text_is_empty() {
    let tokenizer = Tokenizer::new_simple().unwrap();
    assert_eq!(terms(&tokenizer, ""), Vec::<String>::new());
}

#[test]
fn language_codes_select_languages() {
    let cases = [
        ("en", Language::English), ("ar", Language::Arabic), ("da", Language::Danish),
        ("nl", Language::Dutch), ("fi", Language::Finnish), ("fr", Language::French),
        ("de", Language::German), ("el", Language::Greek), ("hu", Language::Hungarian),
        ("it", Language::Italian), ("no", Language::Norwegian), ("pt", Language::Portuguese),
        ("ro", Language::Romanian), ("ru", Language::Russian), ("es", Language::Spanish),
        ("sv", Language::Swedish), ("ta", Language::Tamil), ("tr", Language::Turkish),
    ];
    for (code, language) in cases {
        let wrapper = LanguageWrapper::try_from(code.to_string()).unwrap();
        assert_eq!(wrapper.0, language);
    }
}

#[test]
fn language_code_is_case_sensitive_and_two_letters() {
    assert!(matches!(LanguageWrapper::try_from("EN".to_string()), Err(Error::UnsupportedLanguage)));
    assert!(matches!(LanguageWrapper::try_from("e".to_string()), Err(Error::UnsupportedLanguage)));
    assert!(matches!(LanguageWrapper::try_from("en ".to_string()), Err(Error::UnsupportedLanguage)));
    assert!(matches!(LanguageWrapper::try_from("\u{e9}n".to_string()), Err(Error::UnsupportedLanguage)));
}

#[test]
fn stemmer_languages_differ() {
    let french = Tokenizer::new_stemmer("fr".to_string()).unwrap();
    let english = Tokenizer::new_stemmer("en".to_string()).unwrap();
    assert_eq!(terms(&english, "running"), vec!["run"]);
    assert_ne!(terms(&french, "running"), vec!["run"]);
    assert_eq!(terms(&french, "continuellement"), vec!["continuel"]);
}

#[test]
fn analyzer_and_clone_have_the_same_stages() {
    let tokenizer = Tokenizer::new_stemmer("en".to_string()).unwrap();
    let copy = tokenizer.clone();
    assert_eq!(terms(&copy, "Running dogs"), terms(&tokenizer, "Running dogs"));
    let mut analyzer = tokenizer.get_analyzer();
    let mut found = Vec::new();
    analyzer.token_stream("Running dogs").process(&mut |token| found.push(token.text.clone()));
    assert_eq!(found, vec!["run", "dog"]);
}

#[test]
fn texts_of_tokens_keep_order() {
    let tokens = vec![
        tantiny::tokenizer::Token { text: "b".to_string(), offset_from: 0, offset_to: 1 },
        tantiny::tokenizer::Token { text: "a".to_string(), offset_from: 2, offset_to: 3 },
    ];
    assert_eq!(tantiny::tokenizer::texts_of(&tokens), vec!["b", "a"]);
    assert_eq!(tantiny::tokenizer::texts_of(&vec![]), Vec::<String>::new());
}

#[test]
fn ngram_tokenizer_takes_largest_size() {
    let tokenizer = Tokenizer::new_ngram(1, i64::MAX, false).unwrap();
    assert_eq!(terms(&tokenizer, "abc"), vec!["a", "ab", "abc", "b", "bc", "c"]);
    let tokenizer = Tokenizer::new_ngram(i64::MAX, i64::MAX, true).unwrap();
    assert_eq!(terms(&tokenizer, "abc"), Vec::<String>::new());
}

#[test]
fn ngram_tokenizer_counts_characters_not_bytes() {
    let tokenizer = Tokenizer::new_ngram(2, 2, false).unwrap();
    assert_eq!(terms(&tokenizer, "h\u{e9}llo"), vec!["h\u{e9}", "\u{e9}l", "ll", "lo"]);
}
