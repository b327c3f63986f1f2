use wordle::{
    encode_feedback, is_all_correct, score_guess, App, GuessError, Key, KeyInput, Mark, Outcome,
    WordList, WordSourceError, MAX_ROUNDS, WORD_LENGTH,
};

fn vocabulary() -> WordList {
    let words = [
        "CRANE", "SLATE", "MULCH", "MUSIC", "AUDIO", "PLUMB", "STORY", "WHISK", "FJORD", "GLYPH",
    ];
    WordList::new(words.iter().map(|w| w.to_string()).collect())
}

fn game_on(target: &str) -> App {
    App::with_target(vocabulary(), target.to_string()).expect("target is in the vocabulary")
}

fn type_word(app: &mut App, word: &str) {
    for c in word.chars() {
        app.type_letter(c);
    }
}

fn guess(app: &mut App, word: &str) {
    type_word(app, word);
    app.submit_word();
}

fn press(c: char) -> KeyInput {
    KeyInput { key: Key::Char(c), control_only: false }
}

fn control(c: char) -> KeyInput {
    KeyInput { key: Key::Char(c), control_only: true }
}

fn plain(key: Key) -> KeyInput {
    KeyInput { key, control_only: false }
}

use Mark::{Absent, Correct, Present};

#[test]
fn scores_music_against_mulch() {
    let marks = score_guess("MUSIC", "MULCH");
    assert_eq!(marks, vec![Correct, Correct, Absent, Absent, Present]);
    assert_eq!(encode_feedback(&marks), "GGXXY");
}

#[test]
fn scores_present_letters() {
    let marks = score_guess("AUDIO", "CRANE");
    assert_eq!(marks, vec![Present, Absent, Absent, Absent, Absent]);
    assert_eq!(encode_feedback(&score_guess("NACRE", "CRANE")), "YYYYG");
}

#[test]
fn scoring_ignores_repeated_letters() {
    let marks = score_guess("SASSY", "SWISS");
    assert_eq!(marks, vec![Correct, Absent, Present, Correct, Absent]);
    assert_eq!(encode_feedback(&marks), "GXYGX");
}

#[test]
fn scoring_stops_at_the_shorter_word() {
    assert_eq!(score_guess("ABC", "CAB"), vec![Present, Present, Present]);
    assert_eq!(score_guess("ABCD", "AB"), vec![Correct, Correct]);
    assert_eq!(score_guess("", "CRANE"), Vec::<Mark>::new());
}

#[test]
fn all_correct_only_for_all_correct_marks() {
    assert!(is_all_correct(&[Correct, Correct, Correct, Correct, Correct]));
    assert!(!is_all_correct(&[Correct, Correct, Present, Correct, Correct]));
    assert!(!is_all_correct(&[Absent]));
    assert!(is_all_correct(&[]));
}

#[test]
fn mark_codes() {
    assert_eq!(Correct.code(), 'G');
    assert_eq!(Present.code(), 'Y');
    assert_eq!(Absent.code(), 'X');
}

#[test]
fn crane_scenario() {
    let mut app = game_on("CRANE");
    guess(&mut app, "SLATE");
    // `A` stands at the same position in both words, so it is `Correct`.
    assert_eq!(app.feedback(0).unwrap(), &vec![Absent, Absent, Correct, Absent, Correct]);
    assert_eq!(app.round(), 1);
    assert_eq!(app.outcome(), Outcome::InProgress);
    assert_eq!(app.typing(), "");
    guess(&mut app, "CRANE");
    assert_eq!(app.feedback(1).unwrap(), &vec![Correct; 5]);
    assert_eq!(app.outcome(), Outcome::Won);
    assert_eq!(app.round(), 1);
    assert_eq!(app.guess_count(), 2);
}

#[test]
fn exact_target_wins_without_a_new_round() {
    let mut app = game_on("MULCH");
    guess(&mut app, "AUDIO");
    guess(&mut app, "STORY");
    assert_eq!(app.round(), 2);
    guess(&mut app, "MULCH");
    assert_eq!(app.outcome(), Outcome::Won);
    assert_eq!(app.round(), 2);
    assert_eq!(app.guess(2).unwrap(), "MULCH");
    assert_eq!(app.last_error(), None);
}

#[test]
fn six_misses_lose() {
    let mut app = game_on("CRANE");
    let misses = ["SLATE", "MULCH", "MUSIC", "AUDIO", "PLUMB", "STORY"];
    for (i, w) in misses.iter().enumerate() {
        assert_eq!(app.outcome(), Outcome::InProgress);
        assert_eq!(app.round() as usize, i);
        guess(&mut app, w);
    }
    assert_eq!(app.outcome(), Outcome::Lost);
    assert_eq!(app.round(), MAX_ROUNDS - 1);
    assert_eq!(app.guess_count(), 6);
    assert_eq!(app.shown_target().unwrap(), "CRANE");
}

#[test]
fn win_on_the_last_round() {
    let mut app = game_on("CRANE");
    for w in ["SLATE", "MULCH", "MUSIC", "AUDIO", "PLUMB"] {
        guess(&mut app, w);
    }
    assert_eq!(app.round(), 5);
    guess(&mut app, "CRANE");
    assert_eq!(app.outcome(), Outcome::Won);
    assert_eq!(app.round(), 5);
}

#[test]
fn round_rises_by_one_per_miss_and_not_on_rejection() {
    let mut app = game_on("CRANE");
    guess(&mut app, "SLA");
    assert_eq!(app.round(), 0);
    app.submit_word();
    assert_eq!(app.round(), 0);
    for _ in 0..3 {
        app.backspace();
    }
    guess(&mut app, "SLATE");
    assert_eq!(app.round(), 1);
    guess(&mut app, "AUDIO");
    assert_eq!(app.round(), 2);
}

#[test]
fn short_guess_is_rejected_twice_the_same_way() {
    let mut app = game_on("CRANE");
    type_word(&mut app, "CRA");
    app.submit_word();
    assert_eq!(app.last_error(), Some(GuessError::WrongLength));
    assert_eq!(app.guess_count(), 0);
    assert_eq!(app.round(), 0);
    assert_eq!(app.typing(), "CRA");
    app.submit_word();
    assert_eq!(app.last_error(), Some(GuessError::WrongLength));
    assert_eq!(app.guess_count(), 0);
    assert_eq!(app.round(), 0);
    assert_eq!(app.typing(), "CRA");
}

#[test]
fn unknown_word_is_rejected_twice_the_same_way() {
    let mut app = game_on("CRANE");
    type_word(&mut app, "QQQQQ");
    app.submit_word();
    assert_eq!(app.last_error(), Some(GuessError::UnknownWord));
    assert_eq!(app.guess_count(), 0);
    app.submit_word();
    assert_eq!(app.last_error(), Some(GuessError::UnknownWord));
    assert_eq!(app.guess_count(), 0);
    assert_eq!(app.round(), 0);
    assert_eq!(app.typing(), "QQQQQ");
}

#[test]
fn accepted_guess_clears_the_error() {
    let mut app = game_on("CRANE");
    type_word(&mut app, "QQQQQ");
    app.submit_word();
    assert!(app.last_error().is_some());
    for _ in 0..5 {
        app.backspace();
    }
    guess(&mut app, "SLATE");
    assert_eq!(app.last_error(), None);
}

#[test]
fn error_messages() {
    assert_eq!(GuessError::WrongLength.message(), "Word must be 5 letters long!");
    assert_eq!(GuessError::UnknownWord.message(), "Word doesn't exist!");
}

#[test]
fn finished_game_ignores_typing_and_submitting() {
    let mut app = game_on("CRANE");
    guess(&mut app, "CRANE");
    assert_eq!(app.outcome(), Outcome::Won);
    app.type_letter('X');
    app.backspace();
    app.submit_word();
    assert_eq!(app.outcome(), Outcome::Won);
    assert_eq!(app.round(), 0);
    assert_eq!(app.guess_count(), 1);
    assert_eq!(app.typing(), "CRANE");
    assert_eq!(app.feedback(0).unwrap(), &vec![Correct; 5]);
}

#[test]
fn lost_game_ignores_typing_and_submitting() {
    let mut app = game_on("CRANE");
    for w in ["SLATE", "MULCH", "MUSIC", "AUDIO", "PLUMB", "STORY"] {
        guess(&mut app, w);
    }
    assert_eq!(app.outcome(), Outcome::Lost);
    app.backspace();
    app.type_letter('A');
    app.submit_word();
    assert_eq!(app.outcome(), Outcome::Lost);
    assert_eq!(app.round(), 5);
    assert_eq!(app.guess_count(), 6);
    assert_eq!(app.typing(), "STORY");
}

#[test]
fn history_matches_scoring() {
    let mut app = game_on("MULCH");
    for w in ["MUSIC", "PLUMB", "GLYPH"] {
        guess(&mut app, w);
    }
    for r in 0..app.guess_count() {
        let g = app.guess(r).unwrap();
        let f = app.feedback(r).unwrap();
        assert_eq!(f.len(), g.chars().count());
        assert_eq!(f, &score_guess(g, app.target_word()));
    }
    assert!(app.guess(3).is_none());
    assert!(app.feedback(3).is_none());
}

#[test]
fn typing_stops_at_five_letters() {
    let mut app = game_on("CRANE");
    type_word(&mut app, "SLATES");
    assert_eq!(app.typing(), "SLATE");
    assert_eq!(app.typing().chars().count(), WORD_LENGTH);
}

#[test]
fn backspace_on_empty_guess_does_nothing() {
    let mut app = game_on("CRANE");
    app.backspace();
    assert_eq!(app.typing(), "");
    type_word(&mut app, "AB");
    app.backspace();
    assert_eq!(app.typing(), "A");
}

#[test]
fn word_list_keeps_five_letter_words() {
    let list = WordList::new(vec![
        "CRANE".to_string(),
        "AB".to_string(),
        "SLATES".to_string(),
        "MULCH".to_string(),
    ]);
    assert_eq!(list.len(), 2);
    assert!(list.contains(&"CRANE".to_string()));
    assert!(list.contains(&"MULCH".to_string()));
    assert!(!list.contains(&"AB".to_string()));
    assert!(!list.contains(&"crane".to_string()));
}

#[test]
fn empty_vocabulary_cannot_start() {
    let list = WordList::new(vec!["AB".to_string()]);
    assert_eq!(list.pick_random_word(), Err(WordSourceError::EmptyVocabulary));
    assert!(matches!(App::new(list), Err(WordSourceError::EmptyVocabulary)));
}

#[test]
fn random_word_comes_from_the_vocabulary() {
    let list = vocabulary();
    for _ in 0..20 {
        let w = list.pick_random_word().unwrap();
        assert!(list.contains(&w));
    }
    let one = WordList::new(vec!["GLYPH".to_string()]);
    let app = App::new(one).unwrap();
    assert_eq!(app.target_word(), "GLYPH");
    assert_eq!(app.round(), 0);
    assert_eq!(app.outcome(), Outcome::InProgress);
}

#[test]
fn target_outside_vocabulary_is_refused() {
    assert!(App::with_target(vocabulary(), "ZZZZZ".to_string()).is_none());
    assert!(App::with_target(vocabulary(), "CRAN".to_string()).is_none());
}

#[test]
fn new_word_starts_a_new_game() {
    let mut app = App::with_target(
        WordList::new(vec!["CRANE".to_string(), "SLATE".to_string()]),
        "CRANE".to_string(),
    )
    .unwrap();
    guess(&mut app, "SLATE");
    app.toggle_reveal();
    type_word(&mut app, "QQ");
    assert_eq!(app.choose_random_word(), Ok(()));
    assert!(app.target_word() == "CRANE" || app.target_word() == "SLATE");
    assert_eq!(app.round(), 0);
    assert_eq!(app.guess_count(), 0);
    assert_eq!(app.typing(), "");
    assert!(!app.reveal_answer());
    assert_eq!(app.outcome(), Outcome::InProgress);
}

#[test]
fn check_word_exist_reads_the_typed_guess() {
    let mut app = game_on("CRANE");
    type_word(&mut app, "SLATE");
    assert!(app.check_word_exist());
    app.backspace();
    app.type_letter('Z');
    assert!(!app.check_word_exist());
}

#[test]
fn shown_target_follows_reveal() {
    let mut app = game_on("CRANE");
    assert!(app.shown_target().is_none());
    app.toggle_reveal();
    assert!(app.reveal_answer());
    assert_eq!(app.shown_target().unwrap(), "CRANE");
    app.toggle_reveal();
    assert!(app.shown_target().is_none());
}

#[test]
fn board_cells() {
    let mut app = game_on("CRANE");
    guess(&mut app, "SLATE");
    type_word(&mut app, "CR");
    assert_eq!(app.cell(0, 0), Some(('S', Some(Absent))));
    assert_eq!(app.cell(0, 2), Some(('A', Some(Correct))));
    assert_eq!(app.cell(0, 1), Some(('L', Some(Absent))));
    assert_eq!(app.cell(0, 4), Some(('E', Some(Correct))));
    assert_eq!(app.cell(0, 5), None);
    assert_eq!(app.cell(1, 0), Some(('C', None)));
    assert_eq!(app.cell(1, 1), Some(('R', None)));
    assert_eq!(app.cell(1, 2), None);
    assert_eq!(app.cell(2, 0), None);
}

#[test]
fn keys_drive_the_game() {
    let mut app = game_on("CRANE");
    for c in "SLATX".chars() {
        app.handle_key_event(press(c));
    }
    app.handle_key_event(plain(Key::Backspace));
    app.handle_key_event(press('E'));
    app.handle_key_event(plain(Key::Other));
    app.handle_key_event(plain(Key::Enter));
    assert_eq!(app.guess(0).unwrap(), "SLATE");
    assert_eq!(app.round(), 1);
    app.handle_key_event(control('v'));
    assert!(app.reveal_answer());
    app.handle_key_event(control('V'));
    assert!(!app.reveal_answer());
    app.handle_key_event(KeyInput { key: Key::Char('v'), control_only: false });
    assert_eq!(app.typing(), "v");
    assert!(!app.exited());
    app.handle_key_event(control('Q'));
    assert!(app.exited());
}

#[test]
fn control_r_picks_a_new_word() {
    let mut app = game_on("CRANE");
    guess(&mut app, "SLATE");
    app.handle_key_event(control('r'));
    assert_eq!(app.round(), 0);
    assert_eq!(app.guess_count(), 0);
    assert!(vocabulary().contains(app.target_word()));
}

#[test]
fn run_stops_at_quit() {
    let mut app = game_on("CRANE");
    let mut keys: Vec<KeyInput> = "CRANE".chars().map(press).collect();
    keys.push(plain(Key::Enter));
    keys.push(control('q'));
    keys.push(control('v'));
    keys.push(press('A'));
    app.run(&keys);
    assert_eq!(app.outcome(), Outcome::Won);
    assert!(app.exited());
    assert!(!app.reveal_answer());
}

#[test]
fn run_plays_every_key_without_quit() {
    let mut app = game_on("CRANE");
    let mut keys: Vec<KeyInput> = "SLATE".chars().map(press).collect();
    keys.push(plain(Key::Enter));
    keys.push(press('C'));
    app.run(&keys);
    assert_eq!(app.round(), 1);
    assert_eq!(app.typing(), "C");
    assert!(!app.exited());
}
