use vstd::prelude::*;
use crate::game::{GameState, GuessError, Outcome, MAX_ROUNDS};
use crate::scoring::{all_correct, score, Mark};
use crate::session::{is_command, step};
use crate::vocabulary::WORD_LENGTH;

verus! {

/// Whether a submission in state `s` would be accepted: the game goes on and
/// the guess typed is a word of the vocabulary with `WORD_LENGTH` letters.
pub open spec fn accepts(s: GameState) -> bool {
    &&& s.outcome == Outcome::InProgress
    &&& s.input.len() == WORD_LENGTH
    &&& s.vocabulary.contains(s.input)
}

/// The state after typing the letters of `w`, one by one.
pub open spec fn type_word(s: GameState, w: Seq<char>) -> GameState
    decreases w.len(),
{
    if w.len() == 0 {
        s
    } else {
        type_word(s, w.drop_last()).type_letter(w.last())
    }
}

/// The state after typing and submitting each word of `words`, in order.
pub open spec fn play(s: GameState, words: Seq<Seq<char>>) -> GameState
    decreases words.len(),
{
    if words.len() == 0 {
        s
    } else {
        type_word(play(s, words.drop_last()), words.last()).submit()
    }
}

/// A guess of the target's length scores all `Correct` exactly when it is
/// the target.
pub proof fn lemma_all_correct_iff_target(guess: Seq<char>, target: Seq<char>)
    requires
        guess.len() == target.len(),
    ensures
        all_correct(score(guess, target)) <==> guess == target,
{
    if all_correct(score(guess, target)) {
        assert forall|i: int| 0 <= i < guess.len() implies guess[i] == target[i] by {
            assert(score(guess, target)[i] == Mark::Correct);
        }
        assert(guess =~= target);
    }
}

/// A submission keeps the invariant.
pub proof fn lemma_submit_wf(s: GameState)
    requires
        s.wf(),
    ensures
        s.submit().wf(),
{
    let t = s.submit();
    let k = choose|k: int| 0 <= k < s.vocabulary.len() && s.vocabulary[k] == s.target;
    assert(t.vocabulary[k] == t.target);
    if accepts(s) {
        let fb = score(s.input, s.target);
        assert(t.guesses == s.guesses.push(s.input));
        assert(t.feedback == s.feedback.push(fb));
        assert(t.feedback[s.guesses.len() as int] == fb);
        assert forall|r: int| 0 <= r < t.guesses.len() implies {
            &&& #[trigger] t.guesses[r].len() == WORD_LENGTH
            &&& t.vocabulary.contains(t.guesses[r])
            &&& t.feedback[r] == score(t.guesses[r], t.target)
        } by {
            if r < s.guesses.len() {
                assert(t.guesses[r] == s.guesses[r]);
            }
        }
        assert forall|r: int| 0 <= r < t.round implies !all_correct(#[trigger] t.feedback[r]) by {
            if r < s.round {
                assert(t.feedback[r] == s.feedback[r]);
            }
        }
        assert(t.wf());
    } else {
        lemma_same_game_wf(s, t);
    }
}

/// A state that differs from a well-formed one in the guess typed (of at
/// most `WORD_LENGTH` letters), the reason kept, the display of the target or
/// the wish to leave is well formed.
pub proof fn lemma_same_game_wf(s: GameState, t: GameState)
    requires
        s.wf(),
        t.target == s.target,
        t.vocabulary == s.vocabulary,
        t.guesses == s.guesses,
        t.feedback == s.feedback,
        t.round == s.round,
        t.outcome == s.outcome,
        t.input.len() <= WORD_LENGTH,
    ensures
        t.wf(),
{
    let k = choose|k: int| 0 <= k < s.vocabulary.len() && s.vocabulary[k] == s.target;
    assert(t.vocabulary[k] == t.target);
}

/// Every key press keeps the invariant, a new game being on a word of the
/// vocabulary.
pub proof fn lemma_step_wf(s: GameState, k: crate::session::KeyInput, new_target: Seq<char>)
    requires
        s.wf(),
        s.vocabulary.contains(new_target),
    ensures
        step(s, k, new_target).wf(),
{
    let t = step(s, k, new_target);
    let w = choose|w: int| 0 <= w < s.vocabulary.len() && s.vocabulary[w] == s.target;
    assert(t.vocabulary[w] == s.target);
    if is_command(k, 'r', 'R') {
        let j = choose|j: int| 0 <= j < s.vocabulary.len() && s.vocabulary[j] == new_target;
        assert(t.vocabulary[j] == t.target);
    } else if !is_command(k, 'q', 'Q') && !is_command(k, 'v', 'V') && k.key
        == crate::session::Key::Enter {
        lemma_submit_wf(s);
    } else {
        lemma_same_game_wf(s, t);
    }
}

/// History consistency: every recorded guess has a feedback of its length,
/// which is the scoring of that guess against the target.
pub proof fn lemma_history_consistent(s: GameState)
    requires
        s.wf(),
    ensures
        s.feedback.len() == s.guesses.len(),
        forall|r: int|
            0 <= r < s.guesses.len() ==> {
                &&& #[trigger] s.feedback[r].len() == s.guesses[r].len()
                &&& s.feedback[r] == score(s.guesses[r], s.target)
            },
{
    assert forall|r: int| 0 <= r < s.guesses.len() implies {
        &&& #[trigger] s.feedback[r].len() == s.guesses[r].len()
        &&& s.feedback[r] == score(s.guesses[r], s.target)
    } by {
        assert(s.guesses[r].len() == WORD_LENGTH);
    }
}

/// Win detection: submitting the target wins the game, in the same round,
/// and records the guess.
pub proof fn lemma_exact_guess_wins(s: GameState)
    requires
        s.wf(),
        s.outcome == Outcome::InProgress,
        s.input == s.target,
    ensures
        s.submit().outcome == Outcome::Won,
        s.submit().round == s.round,
        s.submit().guesses == s.guesses.push(s.target),
{
    lemma_all_correct_iff_target(s.input, s.target);
}

/// Round monotonicity: a submission never lowers the round; a turned-down
/// one leaves it, and an accepted guess that misses before the last round
/// raises it by exactly one.
pub proof fn lemma_submit_round(s: GameState)
    requires
        s.wf(),
    ensures
        s.submit().round >= s.round,
        !accepts(s) ==> s.submit().round == s.round && s.submit().guesses == s.guesses,
        accepts(s) && s.input != s.target && s.round + 1 < MAX_ROUNDS ==> s.submit().round
            == s.round + 1,
{
    if accepts(s) {
        lemma_all_correct_iff_target(s.input, s.target);
    }
}

/// Round monotonicity over key presses: apart from starting a new game, no
/// key press lowers the round.
pub proof fn lemma_step_round(s: GameState, k: crate::session::KeyInput, new_target: Seq<char>)
    requires
        s.wf(),
        !is_command(k, 'r', 'R'),
    ensures
        step(s, k, new_target).round >= s.round,
{
}

/// Idempotence of rejection: a guess that is turned down leaves everything
/// but the reason unchanged, and turning it down again changes nothing more.
pub proof fn lemma_rejection_idempotent(s: GameState)
    requires
        s.outcome == Outcome::InProgress,
        !accepts(s),
    ensures
        s.submit() == (GameState {
            error: Some(
                if s.input.len() != WORD_LENGTH {
                    GuessError::WrongLength
                } else {
                    GuessError::UnknownWord
                },
            ),
            ..s
        }),
        s.submit().submit() == s.submit(),
        s.submit().guesses == s.guesses,
        s.submit().round == s.round,
        s.submit().submit().guesses == s.guesses,
        s.submit().submit().round == s.round,
{
}

/// Terminal immutability: once the game is won or lost, typing, erasing and
/// submitting change nothing.
pub proof fn lemma_terminal_frozen(s: GameState, c: char)
    requires
        s.outcome != Outcome::InProgress,
    ensures
        s.type_letter(c) == s,
        s.backspace() == s,
        s.submit() == s,
{
}

/// Typing a word of at most `WORD_LENGTH` letters on an empty guess makes it
/// the guess, and changes nothing else.
pub proof fn lemma_type_word(s: GameState, w: Seq<char>)
    requires
        s.outcome == Outcome::InProgress,
        s.input.len() == 0,
        w.len() <= WORD_LENGTH,
    ensures
        type_word(s, w) == (GameState { input: w, ..s }),
    decreases w.len(),
{
    if w.len() == 0 {
        assert(s.input =~= w);
    } else {
        lemma_type_word(s, w.drop_last());
        assert(w.drop_last().push(w.last()) =~= w);
    }
}

/// After `k` missed guesses of a new game, played round by round, the game
/// goes on in round `k` with an empty guess, while `k` is under the number of
/// rounds, and is lost at that number.
proof fn lemma_misses(s0: GameState, words: Seq<Seq<char>>, k: int)
    requires
        s0.wf(),
        s0 == GameState::fresh(s0.vocabulary, s0.target),
        0 <= k <= words.len() <= MAX_ROUNDS,
        forall|i: int|
            0 <= i < words.len() ==> s0.vocabulary.contains(#[trigger] words[i]) && words[i]
                != s0.target,
    ensures
        play(s0, words.take(k)).wf(),
        play(s0, words.take(k)).vocabulary == s0.vocabulary,
        play(s0, words.take(k)).target == s0.target,
        k < MAX_ROUNDS ==> {
            &&& play(s0, words.take(k)).outcome == Outcome::InProgress
            &&& play(s0, words.take(k)).round == k
            &&& play(s0, words.take(k)).input.len() == 0
        },
        k == MAX_ROUNDS ==> play(s0, words.take(k)).outcome == Outcome::Lost,
    decreases k,
{
    if k == 0 {
        assert(words.take(0) =~= Seq::<Seq<char>>::empty());
    } else {
        lemma_misses(s0, words, k - 1);
        let p = play(s0, words.take(k - 1));
        let w = words[k - 1];
        assert(words.take(k).drop_last() =~= words.take(k - 1));
        let j = choose|j: int| 0 <= j < s0.vocabulary.len() && s0.vocabulary[j] == w;
        assert(w.len() == WORD_LENGTH);
        lemma_type_word(p, w);
        let typed = type_word(p, w);
        lemma_same_game_wf(p, typed);
        lemma_submit_wf(typed);
        lemma_submit_round(typed);
        lemma_all_correct_iff_target(w, s0.target);
    }
}

/// Loss detection: a new game in which `MAX_ROUNDS` words of the
/// vocabulary, none of them the target, are typed and submitted is lost.
pub proof fn lemma_all_misses_lose(s0: GameState, words: Seq<Seq<char>>)
    requires
        s0.wf(),
        s0 == GameState::fresh(s0.vocabulary, s0.target),
        words.len() == MAX_ROUNDS,
        forall|i: int|
            0 <= i < words.len() ==> s0.vocabulary.contains(#[trigger] words[i]) && words[i]
                != s0.target,
    ensures
        play(s0, words).outcome == Outcome::Lost,
{
    lemma_misses(s0, words, MAX_ROUNDS as int);
    assert(words.take(MAX_ROUNDS as int) =~= words);
}

} // verus!
