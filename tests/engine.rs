use wordle_tui::dictionary::{get_debug_word, secret_from_word, DictionaryError, WordList};
use wordle_tui::scoring::{score_guess, CellStatus};
use wordle_tui::session::{GameSession, GuessOutcome, PopupPhase};

use CellStatus::{Absent, Correct, Present};

fn letters(w: &str) -> Vec<char> {
    w.chars().collect()
}

fn dictionary(words: &[&str]) -> WordList {
    WordList::new(words.iter().map(|w| letters(w)).collect())
}

fn type_word(g: &mut GameSession, w: &str) {
    for c in w.chars() {
        g.input_letter(c);
    }
}

fn audio_session() -> GameSession {
    GameSession::new(secret_from_word(&get_debug_word()).unwrap())
}

fn active_letters(g: &GameSession) -> String {
    let row = &g.board.rows[g.board.active_row];
    row.cells.iter().map(|c| c.letter).collect()
}

#[test]
fn duplicate_letters_follow_the_two_pass_rule() {
    let r = score_guess(&['L', 'L', 'A', 'M', 'A'], &['A', 'L', 'L', 'O', 'Y']);
    assert_eq!(r, [Present, Correct, Present, Absent, Absent]);
    let l_hits = [0, 1].iter().filter(|&&i| r[i] != Absent).count();
    let a_hits = [2, 4].iter().filter(|&&i| r[i] != Absent).count();
    assert!(l_hits <= 2);
    assert!(a_hits <= 1);
}

#[test]
fn distinct_letters_score_by_position_and_membership() {
    let r = score_guess(&['C', 'R', 'A', 'N', 'E'], &['R', 'E', 'A', 'C', 'T']);
    assert_eq!(r, [Present, Present, Correct, Absent, Present]);
}

#[test]
fn exact_guess_scores_all_correct() {
    let r = score_guess(&['A', 'U', 'D', 'I', 'O'], &['A', 'U', 'D', 'I', 'O']);
    assert_eq!(r, [Correct; 5]);
}

#[test]
fn repeated_guess_letter_beyond_secret_count_is_absent() {
    let r = score_guess(&['E', 'E', 'E', 'E', 'E'], &['S', 'T', 'E', 'E', 'L']);
    assert_eq!(r, [Absent, Absent, Correct, Correct, Absent]);
    let r = score_guess(&['S', 'P', 'E', 'E', 'D'], &['E', 'R', 'A', 'S', 'E']);
    assert_eq!(r, [Present, Absent, Present, Present, Absent]);
}

#[test]
fn winning_session_end_to_end() {
    let dict = dictionary(&["audio", "crane"]);
    let mut g = audio_session();
    for c in ["A", "U", "D", "I", "O"] {
        g.input_letter(c.chars().next().unwrap());
    }
    assert_eq!(g.submit_guess(&dict), GuessOutcome::Win);
    assert!(g.won);
    assert_eq!(g.board.active_row, 0);
    for cell in g.board.rows[0].cells.iter() {
        assert_eq!(cell.status, Correct);
    }
}

#[test]
fn invalid_word_end_to_end() {
    let dict = dictionary(&["audio", "crane"]);
    let mut g = audio_session();
    for c in ["X", "Y", "Z", "Q", "W"] {
        g.input_letter(c.chars().next().unwrap());
    }
    assert_eq!(g.submit_guess(&dict), GuessOutcome::Invalid);
    assert_eq!(g.board.active_row, 0);
    assert_eq!(g.board.rows[0].cursor, 0);
    for cell in g.board.rows[0].cells.iter() {
        assert_eq!(cell.letter, ' ');
        assert_eq!(cell.status, CellStatus::Empty);
    }
    assert!(g.invalid_guess_shown);
    assert_eq!(g.invalid_guess_ticks, 4);
    assert!(!g.won);
}

#[test]
fn valid_wrong_guesses_advance_one_row_then_lose() {
    let dict = dictionary(&["audio", "crane"]);
    let mut g = audio_session();
    for row in 0..5 {
        type_word(&mut g, "crane");
        assert_eq!(g.submit_guess(&dict), GuessOutcome::Continue);
        assert_eq!(g.board.active_row, row + 1);
        assert_eq!(
            g.board.rows[row].cells.map(|c| c.status),
            [Absent, Absent, Present, Absent, Absent]
        );
    }
    type_word(&mut g, "crane");
    assert_eq!(g.submit_guess(&dict), GuessOutcome::Lose);
    assert!(g.lost);
    assert!(!g.won);
    assert_eq!(g.board.active_row, 5);
    // the game is over: input and submission change nothing
    g.delete_letter();
    g.input_letter('a');
    assert_eq!(g.submit_guess(&dict), GuessOutcome::Ignored);
    assert_eq!(active_letters(&g), "CRANE");
    assert_eq!(g.board.rows[5].cursor, 5);
}

#[test]
fn input_is_bounded_to_the_row() {
    let mut g = audio_session();
    g.delete_letter();
    assert_eq!(g.board.rows[0].cursor, 0);
    g.input_letter('1');
    g.input_letter(' ');
    assert_eq!(g.board.rows[0].cursor, 0);
    type_word(&mut g, "abcdef");
    assert_eq!(g.board.rows[0].cursor, 5);
    assert_eq!(active_letters(&g), "ABCDE");
    g.delete_letter();
    g.delete_letter();
    assert_eq!(g.board.rows[0].cursor, 3);
    assert_eq!(active_letters(&g), "ABC  ");
    for _ in 0..5 {
        g.delete_letter();
    }
    assert_eq!(g.board.rows[0].cursor, 0);
    assert_eq!(active_letters(&g), "     ");
}

#[test]
fn incomplete_row_is_not_submitted() {
    let dict = dictionary(&["audio"]);
    let mut g = audio_session();
    type_word(&mut g, "aud");
    assert_eq!(g.submit_guess(&dict), GuessOutcome::Ignored);
    assert_eq!(g.board.rows[0].cursor, 3);
    assert!(!g.invalid_guess_shown);
}

#[test]
fn invalid_popup_shows_then_dismisses() {
    let dict = dictionary(&["audio"]);
    let mut g = audio_session();
    assert_eq!(g.tick_invalid_popup(), PopupPhase::Inactive);
    type_word(&mut g, "zzzzz");
    assert_eq!(g.submit_guess(&dict), GuessOutcome::Invalid);
    assert_eq!(g.tick_invalid_popup(), PopupPhase::Shown);
    assert_eq!(g.tick_invalid_popup(), PopupPhase::Shown);
    assert_eq!(g.tick_invalid_popup(), PopupPhase::Shown);
    assert_eq!(g.tick_invalid_popup(), PopupPhase::Finished);
    assert!(!g.invalid_guess_shown);
    assert_eq!(g.invalid_guess_ticks, 0);
    assert_eq!(g.tick_invalid_popup(), PopupPhase::Inactive);
}

#[test]
fn win_popup_waits_shows_then_finishes() {
    let dict = dictionary(&["audio"]);
    let mut g = audio_session();
    assert_eq!(g.tick_win_popup(), PopupPhase::Inactive);
    type_word(&mut g, "audio");
    assert_eq!(g.submit_guess(&dict), GuessOutcome::Win);
    for _ in 0..4 {
        assert_eq!(g.tick_win_popup(), PopupPhase::Waiting);
    }
    for _ in 0..3 {
        assert_eq!(g.tick_win_popup(), PopupPhase::Shown);
    }
    assert_eq!(g.tick_win_popup(), PopupPhase::Finished);
    assert_eq!(g.tick_win_popup(), PopupPhase::Finished);
}

#[test]
fn debug_word_is_audio() {
    assert_eq!(get_debug_word(), "AUDIO");
}

#[test]
fn secret_from_word_upper_cases_five_letters() {
    assert_eq!(secret_from_word("audio"), Some(['A', 'U', 'D', 'I', 'O']));
    assert_eq!(secret_from_word("CrAnE"), Some(['C', 'R', 'A', 'N', 'E']));
    assert_eq!(secret_from_word("abc"), None);
    assert_eq!(secret_from_word("abcdef"), None);
    assert_eq!(secret_from_word("ab1de"), None);
}

#[test]
fn word_list_loads_from_json_array() {
    let list = WordList::from_json("[\"audio\", \"crane\"]").unwrap();
    assert_eq!(list.words, vec![letters("audio"), letters("crane")]);
    assert!(list.is_valid(&letters("crane")));
    assert!(!list.is_valid(&letters("CRANE")));
    assert!(!list.is_valid(&letters("cran")));
}

#[test]
fn unreadable_or_empty_word_list_is_unavailable() {
    assert_eq!(WordList::from_json("not json").err(), Some(DictionaryError::Unavailable));
    assert_eq!(WordList::from_json("[1, 2]").err(), Some(DictionaryError::Unavailable));
    assert_eq!(WordList::from_json("[]").err(), Some(DictionaryError::Unavailable));
}

#[test]
fn pick_secret_draws_from_the_list() {
    let list = dictionary(&["crane"]);
    assert_eq!(list.pick_secret(), Ok(['C', 'R', 'A', 'N', 'E']));
    let list = dictionary(&["audio", "crane", "react"]);
    for _ in 0..20 {
        let s = list.pick_secret().unwrap();
        assert!(s == ['A', 'U', 'D', 'I', 'O'] || s == ['C', 'R', 'A', 'N', 'E'] || s == ['R', 'E', 'A', 'C', 'T']);
    }
    assert_eq!(dictionary(&[]).pick_secret(), Err(DictionaryError::Unavailable));
    assert_eq!(dictionary(&["ab"]).pick_secret(), Err(DictionaryError::Unavailable));
}
