use rand::SeedableRng;

use wordle_core::Dictionary;
use wordle_core::EmptyDictionaryError;
use wordle_core::LoadError;

fn w(s: &str) -> Vec<u8> {
    s.bytes().collect()
}

#[test]
fn from_text_splits_on_newlines() {
    let dict = Dictionary::from_text(&w("crane\ntrace\nabbey")).unwrap();
    assert_eq!(dict.len(), 3);
    assert_eq!(dict.word_at(0), &w("crane"));
    assert_eq!(dict.word_at(1), &w("trace"));
    assert_eq!(dict.word_at(2), &w("abbey"));
}

#[test]
fn from_text_strips_carriage_returns() {
    let dict = Dictionary::from_text(&w("crane\r\ntrace\r\n")).unwrap();
    assert_eq!(dict.len(), 2);
    assert_eq!(dict.word_at(0), &w("crane"));
    assert_eq!(dict.word_at(1), &w("trace"));
}

#[test]
fn from_text_trailing_newline_opens_no_extra_word() {
    let dict = Dictionary::from_text(&w("crane\n")).unwrap();
    assert_eq!(dict.len(), 1);
    assert_eq!(dict.word_at(0), &w("crane"));
}

#[test]
fn from_text_keeps_interior_empty_lines() {
    let dict = Dictionary::from_text(&w("crane\n\ntrace")).unwrap();
    assert_eq!(dict.len(), 3);
    assert_eq!(dict.word_at(1), &w(""));
}

#[test]
fn from_text_empty_source_fails() {
    assert_eq!(Dictionary::from_text(&w("")).err(), Some(LoadError));
}

#[test]
fn contains_is_case_insensitive() {
    let dict = Dictionary::from_text(&w("crane\ntrace")).unwrap();
    assert!(dict.contains(&w("crane")));
    assert!(dict.contains(&w("CRANE")));
    assert!(dict.contains(&w("TrAcE")));
    assert!(!dict.contains(&w("zebra")));
    assert!(!dict.contains(&w("cran")));
}

#[test]
fn pick_random_returns_an_entry() {
    let dict = Dictionary::from_text(&w("crane\ntrace\nabbey")).unwrap();
    let entries = [w("crane"), w("trace"), w("abbey")];
    let mut rng = rand::rngs::StdRng::seed_from_u64(7);
    for _ in 0..20 {
        let word = dict.pick_random(&mut rng).unwrap();
        assert!(entries.contains(&word));
    }
}

#[test]
fn pick_random_is_reproducible_under_a_seed() {
    let dict = Dictionary::from_text(&w("crane\ntrace\nabbey\nzebra")).unwrap();
    let mut rng_a = rand::rngs::StdRng::seed_from_u64(42);
    let mut rng_b = rand::rngs::StdRng::seed_from_u64(42);
    for _ in 0..10 {
        assert_eq!(
            dict.pick_random(&mut rng_a).unwrap(),
            dict.pick_random(&mut rng_b).unwrap()
        );
    }
}

#[test]
fn pick_random_empty_dictionary_fails() {
    let dict = Dictionary::from_words(Vec::new());
    let mut rng = rand::rngs::StdRng::seed_from_u64(1);
    assert_eq!(dict.pick_random(&mut rng).unwrap_err(), EmptyDictionaryError);
}

#[test]
fn from_words_keeps_the_list() {
    let dict = Dictionary::from_words(vec![w("crane"), w("trace")]);
    assert_eq!(dict.len(), 2);
    assert!(dict.contains(&w("trace")));
}
