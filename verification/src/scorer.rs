//! Grading of a submitted guess against the target word.
//!
//! A verdict carries one mark per guess position. Marks are assigned in two
//! passes: the first pass fixes `Correct` wherever guess and target agree and
//! leaves a pool of unmatched target letters behind; the second pass turns a
//! mark into `Present` only while the pool still holds an occurrence of that
//! letter, so a letter is never credited more often than it occurs in the
//! target.

use vstd::prelude::*;

verus! {

/// Per-position verdict of a scored guess.
#[derive(Clone, Copy, Debug, PartialEq, Eq, Structural)]
pub enum Mark {
    /// The letter stands at this position in the target.
    Correct,
    /// The letter occurs elsewhere in the target, at a position the guess
    /// did not match in place, and that occurrence is not already claimed
    /// by an earlier guess position.
    Present,
    /// No unclaimed occurrence of the letter is left in the target.
    Absent,
}

/// Error of a scorer call whose guess and target differ in length.
#[derive(Clone, Copy, Debug, PartialEq, Eq, Structural)]
pub struct InvalidLengthError;

/// Occurrences of the letter `l` among the first `n` entries of `s`.
pub open spec fn count_letter(s: Seq<u8>, l: u8, n: int) -> nat
    decreases n,
{
    if n <= 0 {
        0
    } else {
        count_letter(s, l, n - 1) + if s[n - 1] == l {
            1nat
        } else {
            0nat
        }
    }
}

/// Target positions among the first `n` that hold `l` and are not matched in
/// place by the guess: the pool of occurrences from which `Present` marks
/// may be served.
pub open spec fn unmatched_in_target(g: Seq<u8>, t: Seq<u8>, l: u8, n: int) -> nat
    decreases n,
{
    if n <= 0 {
        0
    } else {
        unmatched_in_target(g, t, l, n - 1) + if t[n - 1] == l && g[n - 1] != t[n - 1] {
            1nat
        } else {
            0nat
        }
    }
}

/// Guess positions among the first `n` that hold `l` and are not matched in
/// place: the claims made on the pool before a given position.
pub open spec fn unmatched_in_guess(g: Seq<u8>, t: Seq<u8>, l: u8, n: int) -> nat
    decreases n,
{
    if n <= 0 {
        0
    } else {
        unmatched_in_guess(g, t, l, n - 1) + if g[n - 1] == l && g[n - 1] != t[n - 1] {
            1nat
        } else {
            0nat
        }
    }
}

/// The mark at position `i`: `Correct` where guess and target agree;
/// otherwise `Present` as long as the earlier unmatched occurrences of the
/// same letter in the guess have not used up the unmatched occurrences in
/// the target; otherwise `Absent`.
pub open spec fn mark_at(g: Seq<u8>, t: Seq<u8>, i: int) -> Mark {
    if g[i] == t[i] {
        Mark::Correct
    } else if unmatched_in_guess(g, t, g[i], i) < unmatched_in_target(
        g,
        t,
        g[i],
        t.len() as int,
    ) {
        Mark::Present
    } else {
        Mark::Absent
    }
}

/// The verdict of a whole guess: one mark per guess position.
pub open spec fn score_spec(g: Seq<u8>, t: Seq<u8>) -> Seq<Mark> {
    Seq::new(g.len(), |i: int| mark_at(g, t, i))
}

/// Positions among the first `n` at which the verdict `v` credits the letter
/// `l`: the guess holds `l` there and the mark is `Correct` or `Present`.
pub open spec fn credited_count(g: Seq<u8>, v: Seq<Mark>, l: u8, n: int) -> nat
    decreases n,
{
    if n <= 0 {
        0
    } else {
        credited_count(g, v, l, n - 1) + if g[n - 1] == l && v[n - 1] != Mark::Absent {
            1nat
        } else {
            0nat
        }
    }
}

/// Law: the verdict marks `Correct` exactly at the positions where guess and
/// target hold the same letter.
pub proof fn lemma_correct_marks_agreement(g: Seq<u8>, t: Seq<u8>)
    requires
        g.len() == t.len(),
    ensures
        forall|i: int|
            0 <= i < g.len() ==> ((score_spec(g, t)[i] == Mark::Correct) <==> g[i] == t[i]),
{
    assert forall|i: int|
        0 <= i < g.len() implies ((score_spec(g, t)[i] == Mark::Correct) <==> g[i] == t[i]) by {
        assert(score_spec(g, t)[i] == mark_at(g, t, i));
    }
}

/// Guess positions among the first `n` that hold `l` and are marked
/// `Present` by the verdict.
spec fn present_count(g: Seq<u8>, t: Seq<u8>, l: u8, n: int) -> nat
    decreases n,
{
    if n <= 0 {
        0
    } else {
        present_count(g, t, l, n - 1) + if g[n - 1] == l && mark_at(g, t, n - 1)
            == Mark::Present {
            1nat
        } else {
            0nat
        }
    }
}

/// Guess positions among the first `n` that hold `l` and match the target in
/// place.
spec fn correct_count(g: Seq<u8>, t: Seq<u8>, l: u8, n: int) -> nat
    decreases n,
{
    if n <= 0 {
        0
    } else {
        correct_count(g, t, l, n - 1) + if g[n - 1] == l && g[n - 1] == t[n - 1] {
            1nat
        } else {
            0nat
        }
    }
}

/// Every credited position is either matched in place or marked `Present`.
proof fn lemma_credited_split(g: Seq<u8>, t: Seq<u8>, l: u8, n: int)
    requires
        n <= g.len(),
    ensures
        credited_count(g, score_spec(g, t), l, n) == correct_count(g, t, l, n) + present_count(
            g,
            t,
            l,
            n,
        ),
    decreases n,
{
    if n > 0 {
        lemma_credited_split(g, t, l, n - 1);
        assert(score_spec(g, t)[n - 1] == mark_at(g, t, n - 1));
    }
}

/// The occurrences of `l` in the target split exactly into those matched in
/// place by the guess and those left in the pool.
proof fn lemma_correct_partition(g: Seq<u8>, t: Seq<u8>, l: u8, n: int)
    requires
        g.len() == t.len(),
        n <= t.len(),
    ensures
        correct_count(g, t, l, n) + unmatched_in_target(g, t, l, n) == count_letter(t, l, n),
    decreases n,
{
    if n > 0 {
        lemma_correct_partition(g, t, l, n - 1);
    }
}

/// `Present` marks for `l` never outnumber the unmatched occurrences of `l`,
/// neither in the guess prefix that claimed them nor in the whole target.
proof fn lemma_present_bounds(g: Seq<u8>, t: Seq<u8>, l: u8, n: int)
    requires
        0 <= n,
    ensures
        present_count(g, t, l, n) <= unmatched_in_guess(g, t, l, n),
        present_count(g, t, l, n) <= unmatched_in_target(g, t, l, t.len() as int),
    decreases n,
{
    if n > 0 {
        lemma_present_bounds(g, t, l, n - 1);
    }
}

/// Law (duplicate-letter fairness): for every letter value, the number of
/// `Correct` and `Present` marks that the verdict awards it never exceeds
/// the number of its occurrences in the target.
pub proof fn lemma_duplicate_letter_fairness(g: Seq<u8>, t: Seq<u8>, l: u8)
    requires
        g.len() == t.len(),
    ensures
        credited_count(g, score_spec(g, t), l, g.len() as int) <= count_letter(
            t,
            l,
            t.len() as int,
        ),
{
    let n = g.len() as int;
    lemma_credited_split(g, t, l, n);
    lemma_correct_partition(g, t, l, n);
    lemma_present_bounds(g, t, l, n);
}

/// Pool size for the letter `l`: its occurrences in the target at positions
/// the guess does not match in place.
fn count_unmatched_target(g: &Vec<u8>, t: &Vec<u8>, l: u8) -> (r: usize)
    requires
        g@.len() == t@.len(),
    ensures
        r == unmatched_in_target(g@, t@, l, t@.len() as int),
{
    let mut r: usize = 0;
    let mut j: usize = 0;
    while j < t.len()
        invariant
            g@.len() == t@.len(),
            j <= t@.len(),
            r <= j,
            r == unmatched_in_target(g@, t@, l, j as int),
        decreases t@.len() - j,
    {
        if t[j] == l && g[j] != t[j] {
            r = r + 1;
        }
        j = j + 1;
    }
    r
}

/// Claims on the pool for the letter `l` made by guess positions before
/// `upto`.
fn count_unmatched_guess(g: &Vec<u8>, t: &Vec<u8>, l: u8, upto: usize) -> (r: usize)
    requires
        g@.len() == t@.len(),
        upto <= g@.len(),
    ensures
        r == unmatched_in_guess(g@, t@, l, upto as int),
{
    let mut r: usize = 0;
    let mut j: usize = 0;
    while j < upto
        invariant
            g@.len() == t@.len(),
            j <= upto <= g@.len(),
            r <= j,
            r == unmatched_in_guess(g@, t@, l, j as int),
        decreases upto - j,
    {
        if g[j] == l && g[j] != t[j] {
            r = r + 1;
        }
        j = j + 1;
    }
    r
}

/// Grade `guess` against `target`.
///
/// Succeeds exactly on inputs of equal length and then returns the verdict
/// of `score_spec`: `Correct` in place, `Present` from the pool of unmatched
/// target letters, `Absent` otherwise.
pub fn score(guess: &Vec<u8>, target: &Vec<u8>) -> (r: Result<Vec<Mark>, InvalidLengthError>)
    ensures
        r is Ok <==> guess@.len() == target@.len(),
        r is Ok ==> r.unwrap()@ == score_spec(guess@, target@),
{
    if guess.len() != target.len() {
        return Err(InvalidLengthError);
    }
    let mut marks: Vec<Mark> = Vec::new();
    let mut i: usize = 0;
    while i < guess.len()
        invariant
            guess@.len() == target@.len(),
            i <= guess@.len(),
            marks@.len() == i,
            forall|k: int|
                0 <= k < i ==> marks@[k] == (if guess@[k] == target@[k] {
                    Mark::Correct
                } else {
                    Mark::Absent
                }),
        decreases guess@.len() - i,
    {
        if guess[i] == target[i] {
            marks.push(Mark::Correct);
        } else {
            marks.push(Mark::Absent);
        }
        i = i + 1;
    }
    let mut i: usize = 0;
    while i < guess.len()
        invariant
            guess@.len() == target@.len(),
            i <= guess@.len(),
            marks@.len() == guess@.len(),
            forall|k: int| 0 <= k < i ==> marks@[k] == mark_at(guess@, target@, k),
            forall|k: int|
                i <= k < guess@.len() ==> marks@[k] == (if guess@[k] == target@[k] {
                    Mark::Correct
                } else {
                    Mark::Absent
                }),
        decreases guess@.len() - i,
    {
        if guess[i] != target[i] {
            let l = guess[i];
            let claimed = count_unmatched_guess(guess, target, l, i);
            let pool = count_unmatched_target(guess, target, l);
            if claimed < pool {
                marks[i] = Mark::Present;
            }
        }
        i = i + 1;
    }
    proof {
        assert(marks@ =~= score_spec(guess@, target@));
    }
    Ok(marks)
}

} // verus!
