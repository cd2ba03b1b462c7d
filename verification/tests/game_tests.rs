use rand::SeedableRng;

use wordle_core::Dictionary;
use wordle_core::GuessState;
use wordle_core::Mark;
use wordle_core::Status;
use wordle_core::SubmitResult;
use wordle_core::MAX_ATTEMPTS;

fn w(s: &str) -> Vec<u8> {
    s.bytes().collect()
}

fn dict() -> Dictionary {
    Dictionary::from_text(&w("crane\ntrace\nabbey\nzebra")).unwrap()
}

fn type_word(game: &mut GuessState, word: &str) {
    for c in word.chars() {
        game.append_letter(c);
    }
}

#[test]
fn new_session_starts_fresh() {
    let game = GuessState::new(w("crane"));
    assert_eq!(game.status(), Status::InProgress);
    assert_eq!(game.attempts_remaining(), MAX_ATTEMPTS);
    assert!(game.current_guess().is_empty());
    assert!(game.submitted().is_empty());
}

#[test]
fn append_letter_normalizes_to_lowercase() {
    let mut game = GuessState::new(w("crane"));
    game.append_letter('T');
    game.append_letter('r');
    assert_eq!(game.current_guess(), &w("tr"));
}

#[test]
fn append_letter_ignores_non_letters() {
    let mut game = GuessState::new(w("crane"));
    game.append_letter('3');
    game.append_letter(' ');
    game.append_letter('\r');
    assert!(game.current_guess().is_empty());
}

#[test]
fn append_letter_never_outgrows_the_target() {
    let mut game = GuessState::new(w("crane"));
    for _ in 0..4 {
        type_word(&mut game, "zebra");
    }
    assert_eq!(game.current_guess(), &w("zebra"));
}

#[test]
fn delete_last_letter_shortens_the_guess() {
    let mut game = GuessState::new(w("crane"));
    type_word(&mut game, "tr");
    game.delete_last_letter();
    assert_eq!(game.current_guess(), &w("t"));
    game.delete_last_letter();
    game.delete_last_letter();
    assert!(game.current_guess().is_empty());
}

#[test]
fn submit_incomplete_guess_is_rejected() {
    let d = dict();
    let mut game = GuessState::new(w("crane"));
    type_word(&mut game, "cr");
    assert_eq!(game.submit_guess(&d), SubmitResult::Rejected);
    assert_eq!(game.current_guess(), &w("cr"));
    assert_eq!(game.attempts_remaining(), MAX_ATTEMPTS);
}

#[test]
fn submit_non_word_leaves_state_unchanged() {
    let d = dict();
    let mut game = GuessState::new(w("crane"));
    type_word(&mut game, "zzzzz");
    assert_eq!(game.submit_guess(&d), SubmitResult::NotAWord);
    assert_eq!(game.current_guess(), &w("zzzzz"));
    assert_eq!(game.attempts_remaining(), MAX_ATTEMPTS);
    assert!(game.submitted().is_empty());
    // Submitting again behaves identically: nothing was consumed.
    assert_eq!(game.submit_guess(&d), SubmitResult::NotAWord);
    assert_eq!(game.current_guess(), &w("zzzzz"));
    assert_eq!(game.attempts_remaining(), MAX_ATTEMPTS);
    assert!(game.submitted().is_empty());
}

#[test]
fn winning_on_the_first_attempt() {
    let d = dict();
    let mut game = GuessState::new(w("crane"));
    type_word(&mut game, "crane");
    assert_eq!(game.submit_guess(&d), SubmitResult::Won);
    assert_eq!(game.status(), Status::Won);
    assert_eq!(game.submitted().len(), 1);
    assert_eq!(game.submitted()[0].verdict, vec![Mark::Correct; 5]);
}

#[test]
fn winning_on_a_later_attempt() {
    let d = dict();
    let mut game = GuessState::new(w("crane"));
    type_word(&mut game, "trace");
    assert_eq!(game.submit_guess(&d), SubmitResult::Continue);
    type_word(&mut game, "zebra");
    assert_eq!(game.submit_guess(&d), SubmitResult::Continue);
    type_word(&mut game, "crane");
    assert_eq!(game.submit_guess(&d), SubmitResult::Won);
    assert_eq!(game.status(), Status::Won);
    assert_eq!(game.attempts_remaining(), MAX_ATTEMPTS - 3);
}

#[test]
fn no_mutation_after_a_win() {
    let d = dict();
    let mut game = GuessState::new(w("crane"));
    type_word(&mut game, "crane");
    assert_eq!(game.submit_guess(&d), SubmitResult::Won);
    game.append_letter('a');
    assert!(game.current_guess().is_empty());
    game.delete_last_letter();
    assert_eq!(game.submit_guess(&d), SubmitResult::Rejected);
    assert_eq!(game.status(), Status::Won);
    assert_eq!(game.submitted().len(), 1);
}

#[test]
fn losing_after_six_wrong_submissions() {
    let d = dict();
    let mut game = GuessState::new(w("crane"));
    for attempt in 1..=MAX_ATTEMPTS {
        type_word(&mut game, "trace");
        let result = game.submit_guess(&d);
        if attempt < MAX_ATTEMPTS {
            assert_eq!(result, SubmitResult::Continue);
            assert_eq!(game.status(), Status::InProgress);
        } else {
            assert_eq!(result, SubmitResult::Lost);
        }
    }
    assert_eq!(game.status(), Status::Lost);
    assert_eq!(game.attempts_remaining(), 0);
    assert_eq!(game.submitted().len(), MAX_ATTEMPTS);
    // A seventh submission is rejected as a no-op.
    type_word(&mut game, "trace");
    assert!(game.current_guess().is_empty());
    assert_eq!(game.submit_guess(&d), SubmitResult::Rejected);
    assert_eq!(game.submitted().len(), MAX_ATTEMPTS);
}

#[test]
fn submitted_guesses_record_their_verdicts() {
    let d = dict();
    let mut game = GuessState::new(w("crane"));
    type_word(&mut game, "trace");
    assert_eq!(game.submit_guess(&d), SubmitResult::Continue);
    assert_eq!(game.submitted().len(), 1);
    assert_eq!(game.submitted()[0].word, w("trace"));
    assert_eq!(
        game.submitted()[0].verdict,
        vec![Mark::Absent, Mark::Correct, Mark::Correct, Mark::Present, Mark::Correct]
    );
    assert!(game.current_guess().is_empty());
}

#[test]
fn uppercase_input_still_matches_the_dictionary() {
    let d = dict();
    let mut game = GuessState::new(w("crane"));
    type_word(&mut game, "TRACE");
    assert_eq!(game.submit_guess(&d), SubmitResult::Continue);
    assert_eq!(game.submitted()[0].word, w("trace"));
}

#[test]
fn handle_event_dispatches_on_the_character() {
    let d = dict();
    let mut game = GuessState::new(w("crane"));
    for c in "ttrace".chars() {
        assert_eq!(game.handle_event(&d, c), None);
    }
    assert_eq!(game.current_guess(), &w("ttrac"));
    assert_eq!(game.handle_event(&d, '\u{8}'), None);
    assert_eq!(game.current_guess(), &w("ttra"));
    assert_eq!(game.handle_event(&d, '\r'), Some(SubmitResult::Rejected));
    game.delete_last_letter();
    game.delete_last_letter();
    game.delete_last_letter();
    game.delete_last_letter();
    for c in "crane\r".chars() {
        game.handle_event(&d, c);
    }
    assert_eq!(game.status(), Status::Won);
}

#[test]
fn new_random_draws_its_target_from_the_dictionary() {
    let d = dict();
    let entries = [w("crane"), w("trace"), w("abbey"), w("zebra")];
    let mut rng = rand::rngs::StdRng::seed_from_u64(11);
    for _ in 0..8 {
        let game = GuessState::new_random(&d, &mut rng).unwrap();
        assert!(entries.contains(game.target()));
        assert_eq!(game.status(), Status::InProgress);
        assert_eq!(game.attempts_remaining(), MAX_ATTEMPTS);
    }
}

#[test]
fn new_random_empty_dictionary_fails() {
    let d = Dictionary::from_words(Vec::new());
    let mut rng = rand::rngs::StdRng::seed_from_u64(3);
    assert!(GuessState::new_random(&d, &mut rng).is_err());
}
