//! The dictionary of acceptable words.
//!
//! A dictionary is built once from a newline-delimited byte text, is
//! immutable afterwards, answers case-insensitive membership queries, and
//! hands out a uniformly chosen target word for a fresh game session.

use vstd::prelude::*;

use crate::letters::lower_seq;
use crate::letters::to_lower_byte;

verus! {

/// Error of a dictionary built from an empty word source.
#[derive(Clone, Copy, Debug, PartialEq, Eq, Structural)]
pub struct LoadError;

/// Error of drawing a word from a dictionary with no entries.
#[derive(Clone, Copy, Debug, PartialEq, Eq, Structural)]
pub struct EmptyDictionaryError;

/// Index of the first newline byte of `s` at or after `i`, or the length of
/// `s` if none follows.
pub open spec fn line_end_from(s: Seq<u8>, i: int) -> int
    decreases s.len() - i,
{
    if i < 0 || i >= s.len() {
        s.len() as int
    } else if s[i] == 10 {
        i
    } else {
        line_end_from(s, i + 1)
    }
}

/// A line with one trailing carriage return removed, so that texts with
/// either line ending yield the same words.
pub open spec fn strip_cr(l: Seq<u8>) -> Seq<u8> {
    if l.len() > 0 && l[l.len() - 1] == 13 {
        l.drop_last()
    } else {
        l
    }
}

/// The lines of the byte text `s` from position `i` on: split at newline
/// bytes, each line stripped of one trailing carriage return. A final
/// newline closes the last line rather than opening an empty one.
pub open spec fn lines_from(s: Seq<u8>, i: int) -> Seq<Seq<u8>>
    decreases s.len() - i,
    via lines_from_decreases
{
    if i < 0 || i >= s.len() {
        Seq::empty()
    } else {
        let e = line_end_from(s, i);
        if e >= s.len() {
            seq![strip_cr(s.subrange(i, s.len() as int))]
        } else {
            seq![strip_cr(s.subrange(i, e))] + lines_from(s, e + 1)
        }
    }
}

#[via_fn]
proof fn lines_from_decreases(s: Seq<u8>, i: int) {
    if 0 <= i < s.len() {
        lemma_line_end_from(s, i);
    }
}

/// The first newline at or after `i` lies between `i` and the end of `s`,
/// no newline stands before it, and it is a newline where it is in range.
pub proof fn lemma_line_end_from(s: Seq<u8>, i: int)
    requires
        0 <= i <= s.len(),
    ensures
        i <= line_end_from(s, i) <= s.len(),
        forall|j: int| i <= j < line_end_from(s, i) ==> s[j] != 10,
        line_end_from(s, i) < s.len() ==> s[line_end_from(s, i)] == 10,
    decreases s.len() - i,
{
    if i < s.len() && s[i] != 10 {
        lemma_line_end_from(s, i + 1);
    }
}

/// Scan for the next newline byte at or after `from`.
fn find_line_end(text: &Vec<u8>, from: usize) -> (r: usize)
    requires
        from <= text@.len(),
    ensures
        r == line_end_from(text@, from as int),
        from <= r <= text@.len(),
{
    proof {
        lemma_line_end_from(text@, from as int);
    }
    let mut j: usize = from;
    while j < text.len()
        invariant
            from <= j <= text@.len(),
            line_end_from(text@, from as int) == line_end_from(text@, j as int),
        decreases text@.len() - j,
    {
        if text[j] == 10 {
            return j;
        }
        j = j + 1;
    }
    j
}

/// Copy of the bytes of `src` in the range `from..to`.
pub(crate) fn copy_range(src: &Vec<u8>, from: usize, to: usize) -> (r: Vec<u8>)
    requires
        from <= to <= src@.len(),
    ensures
        r@ == src@.subrange(from as int, to as int),
{
    let mut r: Vec<u8> = Vec::new();
    let mut k: usize = from;
    while k < to
        invariant
            from <= k <= to <= src@.len(),
            r@ == src@.subrange(from as int, k as int),
        decreases to - k,
    {
        r.push(src[k]);
        proof {
            assert(r@ =~= src@.subrange(from as int, k + 1 as int));
        }
        k = k + 1;
    }
    r
}

/// Copy of a whole word.
pub(crate) fn copy_word(src: &Vec<u8>) -> (r: Vec<u8>)
    ensures
        r@ == src@,
{
    let r = copy_range(src, 0, src.len());
    proof {
        assert(src@.subrange(0, src@.len() as int) =~= src@);
    }
    r
}

/// Case-insensitive comparison of two words.
fn eq_ignore_case(a: &Vec<u8>, b: &Vec<u8>) -> (r: bool)
    ensures
        r == (lower_seq(a@) == lower_seq(b@)),
{
    if a.len() != b.len() {
        proof {
            assert(lower_seq(a@).len() != lower_seq(b@).len());
        }
        return false;
    }
    let mut i: usize = 0;
    while i < a.len()
        invariant
            a@.len() == b@.len(),
            i <= a@.len(),
            forall|k: int| 0 <= k < i ==> lower_seq(a@)[k] == lower_seq(b@)[k],
        decreases a@.len() - i,
    {
        if to_lower_byte(a[i]) != to_lower_byte(b[i]) {
            proof {
                assert(lower_seq(a@)[i as int] != lower_seq(b@)[i as int]);
            }
            return false;
        }
        i = i + 1;
    }
    proof {
        assert(lower_seq(a@) =~= lower_seq(b@));
    }
    true
}

/// Relies on `rand::rngs::StdRng`: the standard seedable random number
/// generator, carried opaquely and only ever consulted through
/// `random_index`.
#[verifier::external_type_specification]
#[verifier::external_body]
pub struct ExStdRng(rand::rngs::StdRng);

/// Relies on `rand::Rng::gen_range`: a sample from the range `0..n` lies
/// below `n`; the call panics only on an empty range, which the
/// precondition rules out. Nothing is assumed about which index comes back.
#[verifier::external_body]
fn random_index(rng: &mut rand::rngs::StdRng, n: usize) -> (r: usize)
    requires
        n > 0,
    ensures
        r < n,
{
    rand::Rng::gen_range(rng, 0..n)
}

/// The immutable set of acceptable words.
pub struct Dictionary {
    words: Vec<Vec<u8>>,
}

impl View for Dictionary {
    type V = Seq<Seq<u8>>;

    /// The entries, in source order, each as its byte sequence.
    closed spec fn view(&self) -> Seq<Seq<u8>> {
        self.words@.map_values(|w: Vec<u8>| w@)
    }
}

impl Dictionary {
    /// A word is in the dictionary when some entry equals it up to letter
    /// case.
    pub open spec fn contains_spec(&self, w: Seq<u8>) -> bool {
        exists|i: int| 0 <= i < self@.len() && lower_seq(self@[i]) == lower_seq(w)
    }

    /// Build the dictionary from a newline-delimited byte text.
    ///
    /// Fails exactly on an empty text; otherwise the entries are the lines
    /// of the text, in order.
    pub fn from_text(text: &Vec<u8>) -> (r: Result<Dictionary, LoadError>)
        ensures
            r is Ok <==> text@.len() > 0,
            r is Ok ==> r.unwrap()@ == lines_from(text@, 0),
    {
        let n = text.len();
        if n == 0 {
            return Err(LoadError);
        }
        let mut words: Vec<Vec<u8>> = Vec::new();
        let mut pos: usize = 0;
        while pos < n
            invariant
                n == text@.len(),
                pos <= n,
                lines_from(text@, 0) == words@.map_values(|w: Vec<u8>| w@) + lines_from(
                    text@,
                    pos as int,
                ),
            decreases n - pos,
        {
            let ghost prev_words = words@;
            let end = find_line_end(text, pos);
            proof {
                lemma_line_end_from(text@, pos as int);
            }
            let stop = if end > pos && text[end - 1] == 13 {
                end - 1
            } else {
                end
            };
            let line = copy_range(text, pos, stop);
            proof {
                let s = text@;
                let e = end as int;
                if e > pos && s[e - 1] == 13 {
                    assert(s.subrange(pos as int, e).drop_last() =~= s.subrange(
                        pos as int,
                        stop as int,
                    ));
                }
                assert(line@ == strip_cr(s.subrange(pos as int, e)));
            }
            words.push(line);
            proof {
                assert(words@.map_values(|w: Vec<u8>| w@) =~= prev_words.map_values(
                    |w: Vec<u8>| w@,
                ).push(line@));
                if end < n {
                    assert(lines_from(text@, pos as int) == seq![line@] + lines_from(
                        text@,
                        end + 1 as int,
                    ));
                } else {
                    assert(text@.subrange(pos as int, text@.len() as int) == text@.subrange(
                        pos as int,
                        end as int,
                    ));
                    assert(lines_from(text@, pos as int) == seq![line@]);
                    assert(lines_from(text@, n as int) == Seq::<Seq<u8>>::empty());
                }
                let next: int = if end < n {
                    end + 1
                } else {
                    n as int
                };
                assert(prev_words.map_values(|w: Vec<u8>| w@) + lines_from(text@, pos as int)
                    =~= words@.map_values(|w: Vec<u8>| w@) + lines_from(text@, next));
            }
            pos = if end < n {
                end + 1
            } else {
                n
            };
        }
        let dict = Dictionary { words };
        proof {
            assert(lines_from(text@, n as int) == Seq::<Seq<u8>>::empty());
            assert(dict@ =~= lines_from(text@, 0));
        }
        Ok(dict)
    }

    /// Build the dictionary from an explicit word list.
    pub fn from_words(words: Vec<Vec<u8>>) -> (r: Dictionary)
        ensures
            r@ == words@.map_values(|w: Vec<u8>| w@),
    {
        Dictionary { words }
    }

    /// Number of entries.
    pub fn len(&self) -> (r: usize)
        ensures
            r == self@.len(),
    {
        self.words.len()
    }

    /// The entry at index `i`.
    pub fn word_at(&self, i: usize) -> (r: &Vec<u8>)
        requires
            i < self@.len(),
        ensures
            r@ == self@[i as int],
    {
        &self.words[i]
    }

    /// Case-insensitive membership test.
    pub fn contains(&self, w: &Vec<u8>) -> (r: bool)
        ensures
            r == self.contains_spec(w@),
    {
        let mut i: usize = 0;
        while i < self.words.len()
            invariant
                i <= self@.len(),
                forall|k: int| 0 <= k < i ==> lower_seq(self@[k]) != lower_seq(w@),
            decreases self@.len() - i,
        {
            if eq_ignore_case(&self.words[i], w) {
                proof {
                    assert(self@[i as int] == self.words@[i as int]@);
                    assert(lower_seq(self@[i as int]) == lower_seq(w@));
                }
                return true;
            }
            i = i + 1;
        }
        false
    }

    /// Draw one entry at random, as a fresh copy.
    ///
    /// Succeeds exactly on a non-empty dictionary; which entry comes back
    /// depends on the generator, but it is always one of the entries.
    pub fn pick_random(&self, rng: &mut rand::rngs::StdRng) -> (r: Result<
        Vec<u8>,
        EmptyDictionaryError,
    >)
        ensures
            r is Ok <==> self@.len() > 0,
            r is Ok ==> exists|i: int| 0 <= i < self@.len() && r.unwrap()@ == self@[i],
    {
        if self.words.len() == 0 {
            return Err(EmptyDictionaryError);
        }
        let i = random_index(rng, self.words.len());
        let word = copy_word(&self.words[i]);
        proof {
            assert(word@ == self@[i as int]);
        }
        Ok(word)
    }
}

} // verus!
