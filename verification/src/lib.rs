//! Core logic of a word-guessing game: a dictionary of fixed-length words,
//! a scorer that grades a guess against a target word, and the state machine
//! that drives one game session.

use vstd::prelude::*;

mod dictionary;
mod game;
mod letters;
mod scorer;

verus! {

pub use game::GuessState;
pub use game::append_transition;
pub use game::delete_transition;
pub use game::submit_transition;
pub use game::MAX_ATTEMPTS;
pub use game::ScoredGuess;
pub use game::Status;
pub use game::SubmitResult;
pub use game::lemma_exhausted_attempts_terminal;

pub use dictionary::Dictionary;
pub use dictionary::EmptyDictionaryError;
pub use dictionary::LoadError;
pub use dictionary::lines_from;
pub use dictionary::line_end_from;
pub use dictionary::strip_cr;

pub use scorer::InvalidLengthError;
pub use scorer::Mark;
pub use scorer::count_letter;
pub use scorer::credited_count;
pub use scorer::lemma_correct_marks_agreement;
pub use scorer::lemma_duplicate_letter_fairness;
pub use scorer::mark_at;
pub use scorer::score;
pub use scorer::score_spec;
pub use scorer::unmatched_in_guess;
pub use scorer::unmatched_in_target;

pub use letters::is_letter_byte;
pub use letters::lower_byte;
pub use letters::lower_seq;
pub use letters::normalize_letter;
pub use letters::normalize_letter_spec;
pub use letters::to_lower_byte;

} // verus!
