use vstd::prelude::*;
use crate::laws::{lemma_same_game_wf, lemma_submit_wf};
use crate::scoring::{all_correct, is_all_correct, push_char, score, score_guess, Mark};
use crate::vocabulary::{all_five_letters, views_of, WordList, WordSourceError, WORD_LENGTH};

verus! {

/// Number of guesses a player has.
pub const MAX_ROUNDS: u8 = 6;

/// Where a game stands.
#[derive(Clone, Copy, Debug, PartialEq, Eq, Structural)]
pub enum Outcome {
    InProgress,
    Won,
    Lost,
}

/// Why a guess was turned down.
#[derive(Clone, Copy, Debug, PartialEq, Eq, Structural)]
pub enum GuessError {
    /// The guess does not have `WORD_LENGTH` letters.
    WrongLength,
    /// The guess is not a word of the vocabulary.
    UnknownWord,
}

impl GuessError {
    /// The message shown to the player.
    pub fn message(&self) -> (r: String)
        ensures
            r@ == match *self {
                GuessError::WrongLength => "Word must be 5 letters long!"@,
                GuessError::UnknownWord => "Word doesn't exist!"@,
            },
    {
        match self {
            GuessError::WrongLength => "Word must be 5 letters long!".to_owned(),
            GuessError::UnknownWord => "Word doesn't exist!".to_owned(),
        }
    }
}

/// The state of one game, as plain values.
pub struct GameState {
    /// The word to find.
    pub target: Seq<char>,
    /// The words that may be guessed.
    pub vocabulary: Seq<Seq<char>>,
    /// The accepted guesses, one per round, in round order.
    pub guesses: Seq<Seq<char>>,
    /// The feedback of each accepted guess, in round order.
    pub feedback: Seq<Seq<Mark>>,
    /// The index of the round being played.
    pub round: nat,
    /// The guess being typed.
    pub input: Seq<char>,
    pub outcome: Outcome,
    /// Why the last submission was turned down, until one is accepted.
    pub error: Option<GuessError>,
    /// Whether the target is on show.
    pub reveal: bool,
    /// Whether the player asked to leave.
    pub exit: bool,
}

impl GameState {
    /// A new game on `target`.
    pub open spec fn fresh(vocabulary: Seq<Seq<char>>, target: Seq<char>) -> GameState {
        GameState {
            target,
            vocabulary,
            guesses: Seq::empty(),
            feedback: Seq::empty(),
            round: 0,
            input: Seq::empty(),
            outcome: Outcome::InProgress,
            error: None,
            reveal: false,
            exit: false,
        }
    }

    /// The invariant of a game.
    pub open spec fn wf(self) -> bool {
        &&& self.target.len() == WORD_LENGTH
        &&& all_five_letters(self.vocabulary)
        &&& self.vocabulary.contains(self.target)
        &&& self.round < MAX_ROUNDS
        &&& self.input.len() <= WORD_LENGTH
        &&& self.feedback.len() == self.guesses.len()
        &&& self.outcome == Outcome::InProgress ==> self.guesses.len() == self.round
        &&& self.outcome != Outcome::InProgress ==> self.guesses.len() == self.round + 1
        &&& forall|r: int|
            0 <= r < self.guesses.len() ==> {
                &&& #[trigger] self.guesses[r].len() == WORD_LENGTH
                &&& self.vocabulary.contains(self.guesses[r])
                &&& self.feedback[r] == score(self.guesses[r], self.target)
            }
        &&& forall|r: int| 0 <= r < self.round ==> !all_correct(#[trigger] self.feedback[r])
        &&& self.outcome == Outcome::Won ==> all_correct(self.feedback[self.round as int])
        &&& self.outcome == Outcome::Lost ==> {
            &&& self.round == MAX_ROUNDS - 1
            &&& !all_correct(self.feedback[self.round as int])
        }
    }

    /// Typing a letter: it is added while the game goes on and the guess is
    /// not full.
    pub open spec fn type_letter(self, c: char) -> GameState {
        if self.outcome == Outcome::InProgress && self.input.len() < WORD_LENGTH {
            GameState { input: self.input.push(c), ..self }
        } else {
            self
        }
    }

    /// Erasing the last letter typed, while the game goes on.
    pub open spec fn backspace(self) -> GameState {
        if self.outcome == Outcome::InProgress && self.input.len() > 0 {
            GameState { input: self.input.drop_last(), ..self }
        } else {
            self
        }
    }

    /// Submitting the guess typed.
    pub open spec fn submit(self) -> GameState {
        if self.outcome != Outcome::InProgress {
            self
        } else if self.input.len() != WORD_LENGTH {
            GameState { error: Some(GuessError::WrongLength), ..self }
        } else if !self.vocabulary.contains(self.input) {
            GameState { error: Some(GuessError::UnknownWord), ..self }
        } else {
            let fb = score(self.input, self.target);
            let recorded = GameState {
                guesses: self.guesses.push(self.input),
                feedback: self.feedback.push(fb),
                error: None,
                ..self
            };
            if all_correct(fb) {
                GameState { outcome: Outcome::Won, ..recorded }
            } else if self.round + 1 >= MAX_ROUNDS {
                GameState { outcome: Outcome::Lost, ..recorded }
            } else {
                GameState { round: self.round + 1, input: Seq::empty(), ..recorded }
            }
        }
    }

    /// Showing or hiding the target.
    pub open spec fn toggle_reveal(self) -> GameState {
        GameState { reveal: !self.reveal, ..self }
    }

    /// Asking to leave.
    pub open spec fn quit(self) -> GameState {
        GameState { exit: true, ..self }
    }
}

/// What the board of state `s` shows at `row`, `col`.
pub open spec fn board_cell(s: GameState, row: int, col: int) -> Option<(char, Option<Mark>)> {
    if 0 <= row < s.guesses.len() {
        if 0 <= col < s.guesses[row].len() {
            Some((s.guesses[row][col], Some(s.feedback[row][col])))
        } else {
            None
        }
    } else if s.outcome == Outcome::InProgress && row == s.round && 0 <= col < s.input.len() {
        Some((s.input[col], None))
    } else {
        None
    }
}

/// A game being played, with the vocabulary it is played on.
pub struct App {
    target_word: String,
    words: WordList,
    store: Vec<String>,
    validation_store: Vec<Vec<Mark>>,
    round: u8,
    reveal_answer: bool,
    typing: String,
    outcome: Outcome,
    error: Option<GuessError>,
    exit: bool,
}

/// The marks of each feedback of a vector.
pub open spec fn marks_of(v: Seq<Vec<Mark>>) -> Seq<Seq<Mark>> {
    v.map_values(|m: Vec<Mark>| m@)
}

impl View for App {
    type V = GameState;

    closed spec fn view(&self) -> GameState {
        GameState {
            target: self.target_word@,
            vocabulary: self.words@,
            guesses: views_of(self.store@),
            feedback: marks_of(self.validation_store@),
            round: self.round as nat,
            input: self.typing@,
            outcome: self.outcome,
            error: self.error,
            reveal: self.reveal_answer,
            exit: self.exit,
        }
    }
}

impl App {
    /// The invariant of the game being played.
    pub open spec fn wf(&self) -> bool {
        self@.wf()
    }

    /// A new game on `target`, which must be a word of the vocabulary.
    pub fn with_target(words: WordList, target: String) -> (r: Option<App>)
        ensures
            r is Some <==> words@.contains(target@),
            r matches Some(app) ==> app.wf() && app@ == GameState::fresh(words@, target@),
    {
        if !words.contains(&target) {
            return None;
        }
        let app = App {
            target_word: target,
            words,
            store: Vec::new(),
            validation_store: Vec::new(),
            round: 0,
            reveal_answer: false,
            typing: String::new(),
            outcome: Outcome::InProgress,
            error: None,
            exit: false,
        };
        proof {
            let k = choose|k: int| 0 <= k < app@.vocabulary.len() && app@.vocabulary[k] == app@.target;
            assert(app@.target.len() == WORD_LENGTH);
            assert(app@.guesses =~= Seq::empty());
            assert(app@.feedback =~= Seq::empty());
        }
        Some(app)
    }

    /// A new game on a word of the vocabulary picked at random; fails when
    /// the vocabulary is empty.
    pub fn new(words: WordList) -> (r: Result<App, WordSourceError>)
        ensures
            r is Err <==> words@.len() == 0,
            r matches Err(e) ==> e == WordSourceError::EmptyVocabulary,
            r matches Ok(app) ==> app.wf() && app@ == GameState::fresh(words@, app@.target),
    {
        match words.pick_random_word() {
            Ok(target) => {
                let app = App::with_target(words, target);
                match app {
                    Some(app) => Ok(app),
                    None => Err(WordSourceError::EmptyVocabulary),
                }
            },
            Err(e) => Err(e),
        }
    }

    /// Whether the guess typed is a word of the vocabulary.
    pub fn check_word_exist(&self) -> (r: bool)
        ensures
            r == self@.vocabulary.contains(self@.input),
    {
        self.words.contains(&self.typing)
    }

    /// Adds a letter to the guess typed, while the game goes on and the guess
    /// is not full; otherwise does nothing.
    pub fn type_letter(&mut self, c: char)
        requires
            old(self).wf(),
        ensures
            final(self).wf(),
            final(self)@ == old(self)@.type_letter(c),
    {
        if self.outcome == Outcome::InProgress && self.typing.as_str().unicode_len() < WORD_LENGTH {
            push_char(&mut self.typing, c);
        }
    }

    /// Erases the last letter of the guess typed, while the game goes on;
    /// otherwise does nothing.
    pub fn backspace(&mut self)
        requires
            old(self).wf(),
        ensures
            final(self).wf(),
            final(self)@ == old(self)@.backspace(),
    {
        let n = self.typing.as_str().unicode_len();
        if self.outcome == Outcome::InProgress && n > 0 {
            self.typing = self.typing.as_str().substring_char(0, n - 1).to_owned();
            assert(self.typing@ =~= old(self)@.input.drop_last());
        }
    }

    /// Submits the guess typed. While the game goes on, a guess of the wrong
    /// length or outside the vocabulary is turned down with the reason kept;
    /// any other is scored and recorded for the round, and wins the game when
    /// it is the target, loses it on the last round, and otherwise opens the
    /// next round with an empty guess. Once the game is over, does nothing.
    pub fn submit_word(&mut self)
        requires
            old(self).wf(),
        ensures
            final(self).wf(),
            final(self)@ == old(self)@.submit(),
    {
        if self.outcome != Outcome::InProgress {
            return;
        }
        if self.typing.as_str().unicode_len() != WORD_LENGTH {
            self.error = Some(GuessError::WrongLength);
            return;
        }
        if !self.check_word_exist() {
            self.error = Some(GuessError::UnknownWord);
            return;
        }
        let ghost s = old(self)@;
        let result = score_guess(self.typing.as_str(), self.target_word.as_str());
        let won = is_all_correct(result.as_slice());
        self.validation_store.push(result);
        self.store.push(self.typing.clone());
        proof {
            assert(self@.guesses =~= s.guesses.push(s.input));
            assert(self@.feedback =~= s.feedback.push(score(s.input, s.target)));
        }
        if won {
            self.outcome = Outcome::Won;
        } else if self.round >= MAX_ROUNDS - 1 {
            self.outcome = Outcome::Lost;
        } else {
            self.round = self.round + 1;
            self.typing = String::new();
        }
        self.error = None;
        proof {
            assert(self@ == s.submit());
            lemma_submit_wf(s);
        }
    }

    /// Shows the target if it was hidden, hides it if it was shown.
    pub fn toggle_reveal(&mut self)
        requires
            old(self).wf(),
        ensures
            final(self).wf(),
            final(self)@ == old(self)@.toggle_reveal(),
    {
        self.reveal_answer = !self.reveal_answer;
        proof {
            lemma_same_game_wf(old(self)@, self@);
        }
    }

    /// Records that the player asked to leave.
    pub fn exit(&mut self)
        requires
            old(self).wf(),
        ensures
            final(self).wf(),
            final(self)@ == old(self)@.quit(),
    {
        self.exit = true;
        proof {
            lemma_same_game_wf(old(self)@, self@);
        }
    }

    /// Starts a new game on a word of the vocabulary picked at random. The
    /// vocabulary of a game is never empty, so this does not fail.
    pub fn choose_random_word(&mut self) -> (r: Result<(), WordSourceError>)
        requires
            old(self).wf(),
        ensures
            r is Ok,
            final(self).wf(),
            final(self)@ == GameState::fresh(old(self)@.vocabulary, final(self)@.target),
    {
        let ghost s = old(self)@;
        proof {
            let k = choose|k: int| 0 <= k < s.vocabulary.len() && s.vocabulary[k] == s.target;
        }
        match self.words.pick_random_word() {
            Ok(target) => {
                self.target_word = target;
                self.store = Vec::new();
                self.validation_store = Vec::new();
                self.round = 0;
                self.reveal_answer = false;
                self.typing = String::new();
                self.outcome = Outcome::InProgress;
                self.error = None;
                self.exit = false;
                proof {
                    let t = self@;
                    let k = choose|k: int| 0 <= k < t.vocabulary.len() && t.vocabulary[k] == t.target;
                    assert(t.guesses =~= Seq::empty());
                    assert(t.feedback =~= Seq::empty());
                }
                Ok(())
            },
            Err(e) => Err(e),
        }
    }

    /// Whether the player asked to leave.
    pub fn exited(&self) -> (r: bool)
        ensures
            r == self@.exit,
    {
        self.exit
    }

    /// The word to find.
    pub fn target_word(&self) -> (r: &String)
        ensures
            r@ == self@.target,
    {
        &self.target_word
    }

    /// The index of the round being played.
    pub fn round(&self) -> (r: u8)
        ensures
            r as nat == self@.round,
    {
        self.round
    }

    /// The guess being typed.
    pub fn typing(&self) -> (r: &String)
        ensures
            r@ == self@.input,
    {
        &self.typing
    }

    pub fn outcome(&self) -> (r: Outcome)
        ensures
            r == self@.outcome,
    {
        self.outcome
    }

    /// Why the last submission was turned down, if it was.
    pub fn last_error(&self) -> (r: Option<GuessError>)
        ensures
            r == self@.error,
    {
        self.error
    }

    /// Whether the player asked to see the target.
    pub fn reveal_answer(&self) -> (r: bool)
        ensures
            r == self@.reveal,
    {
        self.reveal_answer
    }

    /// Number of guesses recorded.
    pub fn guess_count(&self) -> (r: usize)
        ensures
            r == self@.guesses.len(),
    {
        self.store.len()
    }

    /// The guess recorded for a round, if any.
    pub fn guess(&self, round: usize) -> (r: Option<&String>)
        ensures
            r is Some <==> round < self@.guesses.len(),
            r matches Some(g) ==> g@ == self@.guesses[round as int],
    {
        if round < self.store.len() {
            Some(&self.store[round])
        } else {
            None
        }
    }

    /// The feedback recorded for a round, if any.
    pub fn feedback(&self, round: usize) -> (r: Option<&Vec<Mark>>)
        ensures
            r is Some <==> round < self@.feedback.len(),
            r matches Some(f) ==> f@ == self@.feedback[round as int],
    {
        if round < self.validation_store.len() {
            Some(&self.validation_store[round])
        } else {
            None
        }
    }

    /// The target, when it may be shown: the player asked to see it, or the
    /// game is lost.
    pub fn shown_target(&self) -> (r: Option<&String>)
        ensures
            r is Some <==> (self@.reveal || self@.outcome == Outcome::Lost),
            r matches Some(t) ==> t@ == self@.target,
    {
        if self.reveal_answer || self.outcome == Outcome::Lost {
            Some(&self.target_word)
        } else {
            None
        }
    }

    /// What the board shows at `row`, `col`: a letter of a recorded guess with
    /// its mark, or a letter of the guess being typed on the current row while
    /// the game goes on, with no mark.
    pub fn cell(&self, row: usize, col: usize) -> (r: Option<(char, Option<Mark>)>)
        requires
            self.wf(),
        ensures
            r == board_cell(self@, row as int, col as int),
    {
        if row < self.store.len() {
            let g = self.store[row].as_str();
            if col < g.unicode_len() {
                assert(self@.guesses[row as int] == self.store@[row as int]@);
                assert(self@.feedback[row as int].len() == WORD_LENGTH);
                let m = self.validation_store[row][col];
                return Some((g.get_char(col), Some(m)));
            }
            return None;
        }
        if self.outcome == Outcome::InProgress && row == self.round as usize {
            let t = self.typing.as_str();
            if col < t.unicode_len() {
                return Some((t.get_char(col), None));
            }
        }
        None
    }
}

} // verus!
