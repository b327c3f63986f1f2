use rand::seq::SliceRandom;
use vstd::prelude::*;

verus! {

/// Number of letters in every word of the game.
pub const WORD_LENGTH: usize = 5;

/// Why no word could be picked.
#[derive(Clone, Copy, Debug, PartialEq, Eq, Structural)]
pub enum WordSourceError {
    /// The vocabulary holds no word of the right length.
    EmptyVocabulary,
}

/// The vocabulary of the game: the words that may be guessed, and among
/// which the target is picked.
pub struct WordList {
    words: Vec<String>,
}

/// The words of a list of candidates that have exactly `WORD_LENGTH` letters,
/// in their order.
pub open spec fn five_letter_words(candidates: Seq<Seq<char>>) -> Seq<Seq<char>>
    decreases candidates.len(),
{
    if candidates.len() == 0 {
        Seq::empty()
    } else {
        let rest = five_letter_words(candidates.drop_last());
        if candidates.last().len() == WORD_LENGTH {
            rest.push(candidates.last())
        } else {
            rest
        }
    }
}

/// The letters of each string of a vector.
pub open spec fn views_of(v: Seq<String>) -> Seq<Seq<char>> {
    v.map_values(|s: String| s@)
}

/// Every word of the list has `WORD_LENGTH` letters.
pub open spec fn all_five_letters(words: Seq<Seq<char>>) -> bool {
    forall|i: int| 0 <= i < words.len() ==> #[trigger] words[i].len() == WORD_LENGTH
}

/// The kept words all have `WORD_LENGTH` letters, and are exactly the
/// candidates of that length.
pub proof fn lemma_five_letter_words(candidates: Seq<Seq<char>>)
    ensures
        all_five_letters(five_letter_words(candidates)),
        forall|w: Seq<char>|
            #[trigger] five_letter_words(candidates).contains(w) <==> (candidates.contains(w)
                && w.len() == WORD_LENGTH),
    decreases candidates.len(),
{
    if candidates.len() > 0 {
        let prev = candidates.drop_last();
        lemma_five_letter_words(prev);
        assert(candidates =~= prev.push(candidates.last()));
        assert forall|w: Seq<char>|
            #[trigger] five_letter_words(candidates).contains(w) <==> (candidates.contains(w)
                && w.len() == WORD_LENGTH) by {
            let last = candidates.last();
            let rest = five_letter_words(prev);
            if candidates.contains(w) && w.len() == WORD_LENGTH {
                let k = choose|k: int| 0 <= k < candidates.len() && candidates[k] == w;
                if k < prev.len() {
                    assert(prev[k] == w);
                    assert(rest.contains(w));
                    let j = choose|j: int| 0 <= j < rest.len() && rest[j] == w;
                    assert(rest.push(last)[j] == w);
                } else {
                    assert(last == w);
                    assert(rest.push(last)[rest.len() as int] == w);
                }
            }
            if five_letter_words(candidates).contains(w) {
                let j = choose|j: int|
                    0 <= j < five_letter_words(candidates).len() && five_letter_words(
                        candidates,
                    )[j] == w;
                if j < rest.len() {
                    assert(rest[j] == w);
                    assert(rest.contains(w));
                    assert(prev.contains(w));
                    let k = choose|k: int| 0 <= k < prev.len() && prev[k] == w;
                    assert(candidates[k] == w);
                } else {
                    assert(w == last);
                    assert(candidates[candidates.len() - 1] == w);
                }
            }
        }
    }
}

impl View for WordList {
    type V = Seq<Seq<char>>;

    closed spec fn view(&self) -> Seq<Seq<char>> {
        views_of(self.words@)
    }
}

impl WordList {
    #[verifier::type_invariant]
    spec fn inv(&self) -> bool {
        all_five_letters(views_of(self.words@))
    }

    /// Builds the vocabulary from candidate words, keeping those of
    /// `WORD_LENGTH` letters, in their order; the others could never be
    /// guessed.
    pub fn new(candidates: Vec<String>) -> (r: WordList)
        ensures
            all_five_letters(r@),
            r@ == five_letter_words(views_of(candidates@)),
    {
        let mut words: Vec<String> = Vec::new();
        let mut i: usize = 0;
        while i < candidates.len()
            invariant
                i <= candidates@.len(),
                views_of(words@) == five_letter_words(views_of(candidates@.take(i as int))),
            decreases candidates@.len() - i,
        {
            let w = &candidates[i];
            let ghost before = words@;
            assert(views_of(candidates@.take(i + 1)).drop_last() =~= views_of(
                candidates@.take(i as int),
            ));
            if w.as_str().unicode_len() == WORD_LENGTH {
                words.push(w.clone());
                assert(views_of(words@) =~= views_of(before).push(w@));
            }
            i += 1;
        }
        assert(candidates@.take(candidates@.len() as int) =~= candidates@);
        proof {
            lemma_five_letter_words(views_of(candidates@));
        }
        WordList { words }
    }

    /// Number of words.
    pub fn len(&self) -> (r: usize)
        ensures
            r == self@.len(),
    {
        self.words.len()
    }

    /// Whether `word` is a word of the vocabulary, letter for letter.
    pub fn contains(&self, word: &String) -> (r: bool)
        ensures
            r == self@.contains(word@),
            all_five_letters(self@),
    {
        proof {
            use_type_invariant(self);
            assert(self@ == views_of(self.words@));
        }
        let mut i: usize = 0;
        while i < self.words.len()
            invariant
                i <= self.words@.len(),
                all_five_letters(self@),
                forall|j: int| 0 <= j < i ==> self.words@[j]@ != word@,
            decreases self.words@.len() - i,
        {
            if self.words[i] == *word {
                assert(self@[i as int] == word@);
                return true;
            }
            i += 1;
        }
        assert forall|j: int| 0 <= j < self@.len() implies self@[j] != word@ by {
            assert(self@[j] == self.words@[j]@);
        }
        false
    }

    /// Picks a word of the vocabulary at random; fails when there is none.
    pub fn pick_random_word(&self) -> (r: Result<String, WordSourceError>)
        ensures
            r is Err <==> self@.len() == 0,
            r matches Ok(w) ==> self@.contains(w@),
            r matches Err(e) ==> e == WordSourceError::EmptyVocabulary,
            all_five_letters(self@),
    {
        proof {
            use_type_invariant(self);
            assert(self@ == views_of(self.words@));
        }
        match choose_word(&self.words) {
            Some(w) => {
                proof {
                    let k = choose|k: int| 0 <= k < self.words@.len() && self.words@[k]@ == w@;
                    assert(self@[k] == w@);
                }
                Ok(w)
            },
            None => Err(WordSourceError::EmptyVocabulary),
        }
    }
}

/// Relies on rand's `SliceRandom::choose`, drawn from `rand::thread_rng()`:
/// `None` for an empty slice, else one of its elements.
#[verifier::external_body]
fn choose_word(words: &Vec<String>) -> (r: Option<String>)
    ensures
        r is None <==> words@.len() == 0,
        r matches Some(w) ==> exists|k: int| 0 <= k < words@.len() && words@[k]@ == w@,
{
    words.choose(&mut rand::thread_rng()).cloned()
}

} // verus!
