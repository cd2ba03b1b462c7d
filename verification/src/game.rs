//! The game session state machine.
//!
//! A session owns a target word drawn from the dictionary and accepts three
//! operations: append a letter to the guess being typed, delete the last
//! letter, and submit the guess. A submission is validated against the
//! dictionary, graded by the scorer, and recorded with its verdict; the
//! session ends won on a submission that equals the target and lost when the
//! six attempts are used up. Once the session is won or lost, every further
//! operation leaves it unchanged.

use vstd::prelude::*;

use crate::dictionary::Dictionary;
use crate::dictionary::EmptyDictionaryError;
use crate::dictionary::copy_word;
use crate::letters::is_letter_byte;
use crate::letters::normalize_letter;
use crate::letters::normalize_letter_spec;
use crate::scorer::Mark;
use crate::scorer::score;
use crate::scorer::score_spec;

verus! {

/// Attempts a fresh session starts with.
pub const MAX_ATTEMPTS: usize = 6;

/// Whether the session is still accepting guesses, or how it ended.
#[derive(Clone, Copy, Debug, PartialEq, Eq, Structural)]
pub enum Status {
    InProgress,
    Won,
    Lost,
}

/// Outcome of one submission.
#[derive(Clone, Copy, Debug, PartialEq, Eq, Structural)]
pub enum SubmitResult {
    /// The guess equals the target; the session is over.
    Won,
    /// The guess was valid but wrong, and it was the last attempt.
    Lost,
    /// The guess was valid but wrong; attempts remain.
    Continue,
    /// The guess is no dictionary word; nothing changed.
    NotAWord,
    /// The session is already over, or the guess is not yet full; nothing
    /// changed.
    Rejected,
}

/// One recorded submission: the guessed word and its verdict.
pub struct ScoredGuess {
    pub word: Vec<u8>,
    pub verdict: Vec<Mark>,
}

/// How appending the character `c` transforms a session: everything but the
/// guess is untouched; an ASCII letter lands at the end of the guess, folded
/// to lowercase, but only while the session is in progress and the guess is
/// shorter than the target; every other input is ignored.
pub open spec fn append_transition(s0: GuessState, s1: GuessState, c: char) -> bool {
    &&& s1.target_spec() == s0.target_spec()
    &&& s1.submitted_spec() == s0.submitted_spec()
    &&& s1.attempts_spec() == s0.attempts_spec()
    &&& s1.status_spec() == s0.status_spec()
    &&& if s0.status_spec() == Status::InProgress && normalize_letter_spec(c) is Some
        && s0.guess_spec().len() < s0.target_spec().len() {
        s1.guess_spec() == s0.guess_spec().push(normalize_letter_spec(c).unwrap())
    } else {
        s1.guess_spec() == s0.guess_spec()
    }
}

/// How deleting the last letter transforms a session: everything but the
/// guess is untouched; a non-empty guess of a session in progress loses its
/// last letter, otherwise nothing changes.
pub open spec fn delete_transition(s0: GuessState, s1: GuessState) -> bool {
    &&& s1.target_spec() == s0.target_spec()
    &&& s1.submitted_spec() == s0.submitted_spec()
    &&& s1.attempts_spec() == s0.attempts_spec()
    &&& s1.status_spec() == s0.status_spec()
    &&& if s0.status_spec() == Status::InProgress && s0.guess_spec().len() > 0 {
        s1.guess_spec() == s0.guess_spec().drop_last()
    } else {
        s1.guess_spec() == s0.guess_spec()
    }
}

/// How a submission transforms a session and what it answers. A finished
/// session or a guess that is not full leaves everything unchanged and is
/// `Rejected`; a full guess outside the dictionary leaves everything
/// unchanged and is `NotAWord`; an accepted guess is recorded with the
/// verdict of the scorer, the guess buffer is cleared, one attempt is spent,
/// and the session is won on the exact target, lost when the last attempt
/// went to a wrong word, and in progress otherwise.
pub open spec fn submit_transition(
    s0: GuessState,
    s1: GuessState,
    dict: Dictionary,
    r: SubmitResult,
) -> bool {
    if s0.status_spec() != Status::InProgress || s0.guess_spec().len()
        != s0.target_spec().len() {
        r == SubmitResult::Rejected && s1 == s0
    } else if !dict.contains_spec(s0.guess_spec()) {
        r == SubmitResult::NotAWord && s1 == s0
    } else {
        &&& s1.target_spec() == s0.target_spec()
        &&& s1.guess_spec() == Seq::<u8>::empty()
        &&& s1.attempts_spec() == s0.attempts_spec() - 1
        &&& s1.submitted_spec() == s0.submitted_spec().push(s1.submitted_spec().last())
        &&& s1.submitted_spec().last().word@ == s0.guess_spec()
        &&& s1.submitted_spec().last().verdict@ == score_spec(s0.guess_spec(), s0.target_spec())
        &&& if s0.guess_spec() == s0.target_spec() {
            r == SubmitResult::Won && s1.status_spec() == Status::Won
        } else if s0.attempts_spec() == 1 {
            r == SubmitResult::Lost && s1.status_spec() == Status::Lost && s1.attempts_spec()
                == 0
        } else {
            r == SubmitResult::Continue && s1.status_spec() == Status::InProgress
        }
    }
}

/// One game session.
pub struct GuessState {
    target: Vec<u8>,
    current_guess: Vec<u8>,
    submitted: Vec<ScoredGuess>,
    attempts_remaining: usize,
    status: Status,
}

impl GuessState {
    /// The word to be guessed.
    pub closed spec fn target_spec(&self) -> Seq<u8> {
        self.target@
    }

    /// The letters typed so far towards the next guess.
    pub closed spec fn guess_spec(&self) -> Seq<u8> {
        self.current_guess@
    }

    /// The submissions recorded so far, oldest first.
    pub closed spec fn submitted_spec(&self) -> Seq<ScoredGuess> {
        self.submitted@
    }

    /// Submissions still available.
    pub closed spec fn attempts_spec(&self) -> int {
        self.attempts_remaining as int
    }

    /// Whether the session is in progress, won or lost.
    pub closed spec fn status_spec(&self) -> Status {
        self.status
    }

    /// Everything a session guarantees between operations: the guess never
    /// outgrows the target, recorded submissions and remaining attempts
    /// always sum to the budget, a session in progress has an attempt left,
    /// every recorded submission is a full-length word carrying the verdict
    /// the scorer gives it, a won session recorded the target as its last
    /// submission, and a lost one has no attempt left.
    pub open spec fn wf(&self) -> bool {
        &&& self.guess_spec().len() <= self.target_spec().len()
        &&& forall|k: int|
            0 <= k < self.guess_spec().len() ==> is_letter_byte(#[trigger] self.guess_spec()[k])
        &&& self.submitted_spec().len() + self.attempts_spec() == MAX_ATTEMPTS
        &&& 0 <= self.attempts_spec() <= MAX_ATTEMPTS
        &&& (self.status_spec() == Status::InProgress ==> self.attempts_spec() > 0)
        &&& forall|k: int|
            0 <= k < self.submitted_spec().len() ==> {
                &&& (#[trigger] self.submitted_spec()[k]).word@.len() == self.target_spec().len()
                &&& self.submitted_spec()[k].verdict@ == score_spec(
                    self.submitted_spec()[k].word@,
                    self.target_spec(),
                )
            }
        &&& (self.status_spec() == Status::Won ==> self.submitted_spec().len() > 0
            && self.submitted_spec().last().word@ == self.target_spec())
        &&& (self.status_spec() == Status::Lost ==> self.attempts_spec() == 0)
    }

    /// Start a session on the given target word.
    pub fn new(target: Vec<u8>) -> (s: GuessState)
        ensures
            s.wf(),
            s.target_spec() == target@,
            s.guess_spec() == Seq::<u8>::empty(),
            s.submitted_spec() == Seq::<ScoredGuess>::empty(),
            s.attempts_spec() == MAX_ATTEMPTS,
            s.status_spec() == Status::InProgress,
    {
        GuessState {
            target,
            current_guess: Vec::new(),
            submitted: Vec::new(),
            attempts_remaining: MAX_ATTEMPTS,
            status: Status::InProgress,
        }
    }

    /// Start a session on a target drawn at random from the dictionary.
    ///
    /// Succeeds exactly on a non-empty dictionary; the target is then one of
    /// its entries.
    pub fn new_random(dict: &Dictionary, rng: &mut rand::rngs::StdRng) -> (r: Result<
        GuessState,
        EmptyDictionaryError,
    >)
        ensures
            r is Ok <==> dict@.len() > 0,
            r is Ok ==> {
                let s = r.unwrap();
                &&& s.wf()
                &&& exists|i: int| 0 <= i < dict@.len() && s.target_spec() == dict@[i]
                &&& s.guess_spec() == Seq::<u8>::empty()
                &&& s.submitted_spec() == Seq::<ScoredGuess>::empty()
                &&& s.attempts_spec() == MAX_ATTEMPTS
                &&& s.status_spec() == Status::InProgress
            },
    {
        match dict.pick_random(rng) {
            Ok(word) => Ok(GuessState::new(word)),
            Err(e) => Err(e),
        }
    }

    /// Append one typed character to the guess.
    ///
    /// An ASCII letter is folded to lowercase and lands at the end of the
    /// guess, but only while the session is in progress and the guess is
    /// shorter than the target; any other input, a full guess or a finished
    /// session make the call a no-op. The guess therefore never outgrows the
    /// target.
    pub fn append_letter(&mut self, c: char)
        requires
            old(self).wf(),
        ensures
            final(self).wf(),
            append_transition(*old(self), *final(self), c),
            final(self).guess_spec().len() <= final(self).target_spec().len(),
    {
        if !matches!(self.status, Status::InProgress) {
            return ;
        }
        if self.current_guess.len() >= self.target.len() {
            return ;
        }
        match normalize_letter(c) {
            Some(b) => {
                self.current_guess.push(b);
            },
            None => {},
        }
    }

    /// Remove the last letter of the guess.
    ///
    /// A no-op on an empty guess or a finished session.
    pub fn delete_last_letter(&mut self)
        requires
            old(self).wf(),
        ensures
            final(self).wf(),
            delete_transition(*old(self), *final(self)),
    {
        if !matches!(self.status, Status::InProgress) {
            return ;
        }
        if self.current_guess.len() > 0 {
            self.current_guess.pop();
        }
    }

    /// Submit the guess being typed.
    ///
    /// Rejected without change while the session is over or the guess is not
    /// full; answered `NotAWord` without change when the full guess is no
    /// dictionary word. An accepted guess is recorded with its verdict, the
    /// guess buffer is cleared and one attempt is spent: the session is won
    /// on the exact target, lost when the last attempt is spent on a wrong
    /// word, and otherwise goes on.
    pub fn submit_guess(&mut self, dict: &Dictionary) -> (r: SubmitResult)
        requires
            old(self).wf(),
        ensures
            final(self).wf(),
            submit_transition(*old(self), *final(self), *dict, r),
    {
        if !matches!(self.status, Status::InProgress) {
            return SubmitResult::Rejected;
        }
        if self.current_guess.len() != self.target.len() {
            return SubmitResult::Rejected;
        }
        if !dict.contains(&self.current_guess) {
            return SubmitResult::NotAWord;
        }
        let verdict = match score(&self.current_guess, &self.target) {
            Ok(v) => v,
            Err(_) => {
                proof {
                    assert(false);
                }
                Vec::new()
            },
        };
        let won = words_equal(&self.current_guess, &self.target);
        let word = copy_word(&self.current_guess);
        self.current_guess.clear();
        self.submitted.push(ScoredGuess { word, verdict });
        self.attempts_remaining = self.attempts_remaining - 1;
        if won {
            self.status = Status::Won;
            SubmitResult::Won
        } else if self.attempts_remaining == 0 {
            self.status = Status::Lost;
            SubmitResult::Lost
        } else {
            SubmitResult::Continue
        }
    }

    /// Feed one raw input character event to the session: a carriage return
    /// submits the guess and hands its outcome back, a backspace deletes the
    /// last letter, and every other character is offered to the guess.
    pub fn handle_event(&mut self, dict: &Dictionary, c: char) -> (r: Option<SubmitResult>)
        requires
            old(self).wf(),
        ensures
            final(self).wf(),
            c == '\r' ==> r is Some && submit_transition(
                *old(self),
                *final(self),
                *dict,
                r.unwrap(),
            ),
            c == '\u{8}' ==> r is None && delete_transition(*old(self), *final(self)),
            c != '\r' && c != '\u{8}' ==> r is None && append_transition(
                *old(self),
                *final(self),
                c,
            ),
    {
        if c == '\r' {
            Some(self.submit_guess(dict))
        } else if c == '\u{8}' {
            self.delete_last_letter();
            None
        } else {
            self.append_letter(c);
            None
        }
    }

    /// The word to be guessed.
    pub fn target(&self) -> (r: &Vec<u8>)
        ensures
            r@ == self.target_spec(),
    {
        &self.target
    }

    /// The letters typed so far towards the next guess.
    pub fn current_guess(&self) -> (r: &Vec<u8>)
        ensures
            r@ == self.guess_spec(),
    {
        &self.current_guess
    }

    /// The submissions recorded so far, oldest first.
    pub fn submitted(&self) -> (r: &Vec<ScoredGuess>)
        ensures
            r@ == self.submitted_spec(),
    {
        &self.submitted
    }

    /// Submissions still available.
    pub fn attempts_remaining(&self) -> (r: usize)
        ensures
            r == self.attempts_spec(),
    {
        self.attempts_remaining
    }

    /// Whether the session is in progress, won or lost.
    pub fn status(&self) -> (r: Status)
        ensures
            r == self.status_spec(),
    {
        self.status
    }
}

/// Exact equality of two words.
fn words_equal(a: &Vec<u8>, b: &Vec<u8>) -> (r: bool)
    ensures
        r == (a@ == b@),
{
    if a.len() != b.len() {
        return false;
    }
    let mut i: usize = 0;
    while i < a.len()
        invariant
            a@.len() == b@.len(),
            i <= a@.len(),
            forall|k: int| 0 <= k < i ==> a@[k] == b@[k],
        decreases a@.len() - i,
    {
        if a[i] != b[i] {
            return false;
        }
        i = i + 1;
    }
    proof {
        assert(a@ =~= b@);
    }
    true
}

/// Law: a well-formed session that has recorded all six submissions is never
/// still in progress, so a seventh submission is rejected without change.
pub proof fn lemma_exhausted_attempts_terminal(s: GuessState)
    requires
        s.wf(),
        s.submitted_spec().len() == MAX_ATTEMPTS,
    ensures
        s.status_spec() != Status::InProgress,
{
}

} // verus!
