use vstd::prelude::*;

use crate::dictionary::WordList;
use crate::letters::{
    is_ascii_letter, is_letter, is_secret_word, is_upper_letter, lower_word, to_lower, to_upper,
    upper_char,
};
use crate::scoring::{lemma_all_correct_iff_secret, score_guess, score_of, status_at, CellStatus};

verus! {

/// Rows on the board: the attempts a player has.
pub const ROWS: usize = 6;

/// The last popup tick of the grace period before the popup is drawn.
pub const POPUP_LAST_WAIT_TICK: u8 = 3;

/// The last popup tick on which the popup is drawn.
pub const POPUP_LAST_SHOWN_TICK: u8 = 6;

/// Where the invalid-guess countdown starts: past the grace period, ready to
/// be drawn.
pub const INVALID_POPUP_FIRST_TICK: u8 = 4;

/// One letter slot.
#[derive(Clone, Copy, Debug, PartialEq, Eq, Structural)]
pub struct Cell {
    pub letter: char,
    pub status: CellStatus,
}

/// One attempt: five cells and the slot the next letter goes to.
#[derive(Clone, Copy, Debug)]
pub struct Row {
    pub cells: [Cell; 5],
    pub cursor: usize,
}

/// Six rows; the active one takes input.
#[derive(Clone, Copy, Debug)]
pub struct Board {
    pub rows: [Row; 6],
    pub active_row: usize,
}

/// What a submission did.
#[derive(Clone, Copy, Debug, PartialEq, Eq, Structural)]
pub enum GuessOutcome {
    /// The row was not full, or the game is over: nothing changed.
    Ignored,
    /// Not a dictionary word: the row was cleared for another try.
    Invalid,
    /// The guess is the secret.
    Win,
    /// A wrong guess on the last row.
    Lose,
    /// A wrong guess; the next row is active.
    Continue,
}

/// Where a popup stands after one render tick.
#[derive(Clone, Copy, Debug, PartialEq, Eq, Structural)]
pub enum PopupPhase {
    /// No popup is pending.
    Inactive,
    /// Grace period: not drawn yet.
    Waiting,
    /// Drawn on this tick.
    Shown,
    /// Done: dismissed (invalid guess), or time to start a new game (win).
    Finished,
}

/// A game: the secret, the board, and the transient popup state.
pub struct GameSession {
    pub secret: [char; 5],
    pub board: Board,
    pub won: bool,
    pub lost: bool,
    pub invalid_guess_shown: bool,
    pub invalid_guess_ticks: u8,
    pub win_ticks: u8,
}

/// An empty, unscored cell.
pub open spec fn blank_cell() -> Cell {
    Cell { letter: ' ', status: CellStatus::Empty }
}

/// The letters of a row.
pub open spec fn row_letters(row: Row) -> Seq<char> {
    row.cells@.map_values(|c: Cell| c.letter)
}

/// The statuses of a row.
pub open spec fn row_statuses(row: Row) -> Seq<CellStatus> {
    row.cells@.map_values(|c: Cell| c.status)
}

/// A row being typed: letters before the cursor, blanks from it on, nothing
/// scored.
pub open spec fn is_editing_row(row: Row) -> bool {
    &&& row.cursor <= 5
    &&& forall|k: int|
        0 <= k < 5 ==> {
            &&& (#[trigger] row.cells@[k]).status == CellStatus::Empty
            &&& (k < row.cursor ==> is_upper_letter(row.cells@[k].letter))
            &&& (k >= row.cursor ==> row.cells@[k].letter == ' ')
        }
}

/// A row with nothing in it.
pub open spec fn is_blank_row(row: Row) -> bool {
    row.cursor == 0 && forall|k: int| 0 <= k < 5 ==> #[trigger] row.cells@[k] == blank_cell()
}

/// A full row of letters, scored against the secret.
pub open spec fn is_scored_row(row: Row, secret: Seq<char>) -> bool {
    &&& row.cursor == 5
    &&& forall|k: int| 0 <= k < 5 ==> is_upper_letter(#[trigger] row.cells@[k].letter)
    &&& row_statuses(row) == score_of(row_letters(row), secret)
}

impl GameSession {
    /// The row that takes input.
    pub open spec fn active(&self) -> Row {
        self.board.rows@[self.board.active_row as int]
    }

    /// Won, or out of attempts.
    pub open spec fn is_over(&self) -> bool {
        self.won || self.lost
    }

    /// Rows before the active one are scored, rows after it blank, the active
    /// one is being typed until the game ends, and then it is scored.
    pub open spec fn wf(&self) -> bool {
        &&& is_secret_word(self.secret@)
        &&& self.board.active_row < ROWS
        &&& forall|r: int|
            0 <= r < self.board.active_row ==> is_scored_row(
                #[trigger] self.board.rows@[r],
                self.secret@,
            )
        &&& forall|r: int|
            self.board.active_row < r < ROWS ==> is_blank_row(#[trigger] self.board.rows@[r])
        &&& if self.is_over() {
            is_scored_row(self.active(), self.secret@)
        } else {
            is_editing_row(self.active())
        }
        &&& self.won ==> row_letters(self.active()) == self.secret@
        &&& self.lost ==> !self.won && self.board.active_row == ROWS - 1 && row_letters(
            self.active(),
        ) != self.secret@
        &&& !self.won ==> self.win_ticks == 0
        &&& self.invalid_guess_ticks <= POPUP_LAST_SHOWN_TICK + 1
        &&& self.win_ticks <= POPUP_LAST_SHOWN_TICK + 1
    }

    /// Whether `input_letter(ch)` writes a letter.
    pub open spec fn accepts_letter(&self, ch: char) -> bool {
        !self.is_over() && self.active().cursor < 5 && is_letter(ch)
    }

    /// Whether `delete_letter` removes a letter.
    pub open spec fn accepts_delete(&self) -> bool {
        !self.is_over() && self.active().cursor > 0
    }

    /// Whether `submit_guess` does anything: the game goes on and the active
    /// row is full.
    pub open spec fn ready_to_submit(&self) -> bool {
        !self.is_over() && self.active().cursor == 5
    }

    /// The word typed in the active row.
    pub open spec fn typed_word(&self) -> Seq<char> {
        row_letters(self.active())
    }

    /// Rows other than `r`, and every field but the board, are as in `other`.
    pub open spec fn same_except_row(&self, other: &GameSession, r: int) -> bool {
        &&& self.secret == other.secret
        &&& forall|i: int| 0 <= i < ROWS && i != r ==> self.board.rows@[i] == other.board.rows@[i]
    }
}

impl GameSession {
    /// A fresh game on `secret`: every row blank, the first one active.
    pub fn new(secret: [char; 5]) -> (r: GameSession)
        requires
            is_secret_word(secret@),
        ensures
            r.wf(),
            r.secret == secret,
            r.board.active_row == 0,
            forall|i: int| 0 <= i < ROWS ==> is_blank_row(#[trigger] r.board.rows@[i]),
            !r.won,
            !r.lost,
            !r.invalid_guess_shown,
            r.invalid_guess_ticks == 0,
            r.win_ticks == 0,
    {
        let cell = Cell { letter: ' ', status: CellStatus::Empty };
        let row = Row { cells: [cell, cell, cell, cell, cell], cursor: 0 };
        let board = Board { rows: [row, row, row, row, row, row], active_row: 0 };
        GameSession {
            secret,
            board,
            won: false,
            lost: false,
            invalid_guess_shown: false,
            invalid_guess_ticks: 0,
            win_ticks: 0,
        }
    }

    /// Types `ch`, upper-cased, into the active row's next slot. Ignored when
    /// the row is full, the game is over, or `ch` is not an ASCII letter.
    pub fn input_letter(&mut self, ch: char)
        requires
            old(self).wf(),
        ensures
            final(self).wf(),
            !old(self).accepts_letter(ch) ==> *final(self) == *old(self),
            old(self).accepts_letter(ch) ==> {
                &&& final(self).same_except_row(old(self), old(self).board.active_row as int)
                &&& final(self).board.active_row == old(self).board.active_row
                &&& final(self).won == old(self).won
                &&& final(self).lost == old(self).lost
                &&& final(self).invalid_guess_shown == old(self).invalid_guess_shown
                &&& final(self).invalid_guess_ticks == old(self).invalid_guess_ticks
                &&& final(self).win_ticks == old(self).win_ticks
                &&& final(self).active().cursor == old(self).active().cursor + 1
                &&& final(self).active().cells@ == old(self).active().cells@.update(
                    old(self).active().cursor as int,
                    Cell { letter: upper_char(ch), status: CellStatus::Empty },
                )
            },
    {
        let a = self.board.active_row;
        let cur = self.board.rows[a].cursor;
        if self.won || self.lost || cur >= 5 || !is_ascii_letter(ch) {
            return ;
        }
        let mut row = self.board.rows[a];
        row.cells[cur] = Cell { letter: to_upper(ch), status: CellStatus::Empty };
        row.cursor = cur + 1;
        self.board.rows[a] = row;
    }

    /// Removes the last letter typed in the active row. Ignored when the row
    /// is empty or the game is over.
    pub fn delete_letter(&mut self)
        requires
            old(self).wf(),
        ensures
            final(self).wf(),
            !old(self).accepts_delete() ==> *final(self) == *old(self),
            old(self).accepts_delete() ==> {
                &&& final(self).same_except_row(old(self), old(self).board.active_row as int)
                &&& final(self).board.active_row == old(self).board.active_row
                &&& final(self).won == old(self).won
                &&& final(self).lost == old(self).lost
                &&& final(self).invalid_guess_shown == old(self).invalid_guess_shown
                &&& final(self).invalid_guess_ticks == old(self).invalid_guess_ticks
                &&& final(self).win_ticks == old(self).win_ticks
                &&& final(self).active().cursor == old(self).active().cursor - 1
                &&& final(self).active().cells@ == old(self).active().cells@.update(
                    old(self).active().cursor - 1,
                    blank_cell(),
                )
            },
    {
        let a = self.board.active_row;
        let cur = self.board.rows[a].cursor;
        if self.won || self.lost || cur == 0 {
            return ;
        }
        let mut row = self.board.rows[a];
        row.cells[cur - 1] = Cell { letter: ' ', status: CellStatus::Empty };
        row.cursor = cur - 1;
        self.board.rows[a] = row;
    }
}

impl GameSession {
    /// Submits the active row. A full row whose lower-cased word the
    /// dictionary lacks is cleared for another try; a valid word is scored,
    /// then wins, loses on the last row, or moves on to the next row.
    pub fn submit_guess(&mut self, dictionary: &WordList) -> (outcome: GuessOutcome)
        requires
            old(self).wf(),
        ensures
            final(self).wf(),
            final(self).secret == old(self).secret,
            !old(self).ready_to_submit() ==> outcome == GuessOutcome::Ignored && *final(self)
                == *old(self),
            old(self).ready_to_submit() && !dictionary@.contains(lower_word(old(self).typed_word()))
                ==> {
                &&& outcome == GuessOutcome::Invalid
                &&& final(self).same_except_row(old(self), old(self).board.active_row as int)
                &&& final(self).board.active_row == old(self).board.active_row
                &&& is_blank_row(final(self).active())
                &&& final(self).invalid_guess_shown
                &&& final(self).invalid_guess_ticks == INVALID_POPUP_FIRST_TICK
                &&& !final(self).won && !final(self).lost
                &&& final(self).win_ticks == old(self).win_ticks
            },
            old(self).ready_to_submit() && dictionary@.contains(lower_word(old(self).typed_word()))
                ==> {
                &&& final(self).same_except_row(old(self), old(self).board.active_row as int)
                &&& row_letters(final(self).board.rows@[old(self).board.active_row as int])
                    == old(self).typed_word()
                &&& row_statuses(final(self).board.rows@[old(self).board.active_row as int])
                    == score_of(old(self).typed_word(), old(self).secret@)
                &&& final(self).invalid_guess_shown == old(self).invalid_guess_shown
                &&& final(self).invalid_guess_ticks == old(self).invalid_guess_ticks
                &&& (old(self).typed_word() == old(self).secret@ ==> {
                    &&& outcome == GuessOutcome::Win
                    &&& final(self).won
                    &&& final(self).win_ticks == 0
                    &&& final(self).board.active_row == old(self).board.active_row
                    &&& forall|k: int|
                        0 <= k < 5 ==> #[trigger] final(self).active().cells@[k].status
                            == CellStatus::Correct
                })
                &&& (old(self).typed_word() != old(self).secret@ && old(self).board.active_row
                    == ROWS - 1 ==> {
                    &&& outcome == GuessOutcome::Lose
                    &&& final(self).lost && !final(self).won
                    &&& final(self).board.active_row == old(self).board.active_row
                })
                &&& (old(self).typed_word() != old(self).secret@ && old(self).board.active_row
                    < ROWS - 1 ==> {
                    &&& outcome == GuessOutcome::Continue
                    &&& !final(self).won && !final(self).lost
                    &&& final(self).board.active_row == old(self).board.active_row + 1
                })
            },
    {
        let a = self.board.active_row;
        if self.won || self.lost || self.board.rows[a].cursor != 5 {
            return GuessOutcome::Ignored;
        }
        let row = self.board.rows[a];
        let guess: [char; 5] = [
            row.cells[0].letter,
            row.cells[1].letter,
            row.cells[2].letter,
            row.cells[3].letter,
            row.cells[4].letter,
        ];
        assert(guess@ =~= self.typed_word());
        let mut lower: Vec<char> = Vec::new();
        let mut i: usize = 0;
        while i < 5
            invariant
                0 <= i <= 5,
                lower@ == lower_word(guess@).subrange(0, i as int),
            decreases 5 - i,
        {
            lower.push(to_lower(guess[i]));
            i += 1;
        }
        assert(lower@ =~= lower_word(guess@));
        if !dictionary.is_valid(&lower) {
            let cell = Cell { letter: ' ', status: CellStatus::Empty };
            self.board.rows[a] = Row { cells: [cell, cell, cell, cell, cell], cursor: 0 };
            self.invalid_guess_shown = true;
            self.invalid_guess_ticks = INVALID_POPUP_FIRST_TICK;
            return GuessOutcome::Invalid;
        }
        let statuses = score_guess(&guess, &self.secret);
        let mut scored = row;
        let mut k: usize = 0;
        while k < 5
            invariant
                0 <= k <= 5,
                scored.cursor == 5,
                forall|j: int| 0 <= j < 5 ==> (#[trigger] scored.cells@[j]).letter == guess@[j],
                forall|j: int| 0 <= j < k ==> (#[trigger] scored.cells@[j]).status == statuses@[j],
            decreases 5 - k,
        {
            scored.cells[k] = Cell { letter: guess[k], status: statuses[k] };
            k += 1;
        }
        assert(row_letters(scored) =~= guess@);
        assert(row_statuses(scored) =~= statuses@);
        self.board.rows[a] = scored;
        let mut all_correct = true;
        let mut k: usize = 0;
        while k < 5
            invariant
                0 <= k <= 5,
                all_correct == forall|j: int| 0 <= j < k ==> statuses@[j] == CellStatus::Correct,
            decreases 5 - k,
        {
            if statuses[k] != CellStatus::Correct {
                all_correct = false;
            }
            k += 1;
        }
        proof {
            lemma_all_correct_iff_secret(guess@, self.secret@);
            assert(all_correct == (guess@ == self.secret@)) by {
                if all_correct {
                    assert forall|i: int| 0 <= i < 5 implies #[trigger] status_at(
                        guess@,
                        self.secret@,
                        i,
                    ) == CellStatus::Correct by {
                        assert(statuses@[i] == CellStatus::Correct);
                    }
                } else {
                    let j = choose|j: int| 0 <= j < 5 && statuses@[j] != CellStatus::Correct;
                    assert(status_at(guess@, self.secret@, j) != CellStatus::Correct);
                }
            }
        }
        if all_correct {
            self.won = true;
            self.win_ticks = 0;
            GuessOutcome::Win
        } else if a == ROWS - 1 {
            self.lost = true;
            GuessOutcome::Lose
        } else {
            self.board.active_row = a + 1;
            GuessOutcome::Continue
        }
    }
}

/// The phase a popup reaches on a tick taken with its counter at `ticks`.
pub open spec fn phase_at(ticks: u8) -> PopupPhase {
    if ticks <= POPUP_LAST_WAIT_TICK {
        PopupPhase::Waiting
    } else if ticks <= POPUP_LAST_SHOWN_TICK {
        PopupPhase::Shown
    } else {
        PopupPhase::Finished
    }
}

impl GameSession {
    /// One render tick of the invalid-guess popup: the counter advances
    /// through the grace and display phases, then the popup is dismissed.
    pub fn tick_invalid_popup(&mut self) -> (phase: PopupPhase)
        requires
            old(self).wf(),
        ensures
            final(self).wf(),
            final(self).secret == old(self).secret,
            final(self).board == old(self).board,
            final(self).won == old(self).won,
            final(self).lost == old(self).lost,
            final(self).win_ticks == old(self).win_ticks,
            !old(self).invalid_guess_shown ==> phase == PopupPhase::Inactive && *final(self)
                == *old(self),
            old(self).invalid_guess_shown ==> phase == phase_at(old(self).invalid_guess_ticks),
            old(self).invalid_guess_shown && phase != PopupPhase::Finished ==> {
                &&& final(self).invalid_guess_shown
                &&& final(self).invalid_guess_ticks == old(self).invalid_guess_ticks + 1
            },
            old(self).invalid_guess_shown && phase == PopupPhase::Finished ==> {
                &&& !final(self).invalid_guess_shown
                &&& final(self).invalid_guess_ticks == 0
            },
    {
        if !self.invalid_guess_shown {
            return PopupPhase::Inactive;
        }
        let ticks = self.invalid_guess_ticks;
        if ticks <= POPUP_LAST_WAIT_TICK {
            self.invalid_guess_ticks = ticks + 1;
            PopupPhase::Waiting
        } else if ticks <= POPUP_LAST_SHOWN_TICK {
            self.invalid_guess_ticks = ticks + 1;
            PopupPhase::Shown
        } else {
            self.invalid_guess_shown = false;
            self.invalid_guess_ticks = 0;
            PopupPhase::Finished
        }
    }

    /// One render tick of the win popup: the counter advances through the
    /// grace and display phases; `Finished` means the game should be replaced
    /// by a fresh one.
    pub fn tick_win_popup(&mut self) -> (phase: PopupPhase)
        requires
            old(self).wf(),
        ensures
            final(self).wf(),
            final(self).secret == old(self).secret,
            final(self).board == old(self).board,
            final(self).won == old(self).won,
            final(self).lost == old(self).lost,
            final(self).invalid_guess_shown == old(self).invalid_guess_shown,
            final(self).invalid_guess_ticks == old(self).invalid_guess_ticks,
            !old(self).won ==> phase == PopupPhase::Inactive && *final(self) == *old(self),
            old(self).won ==> phase == phase_at(old(self).win_ticks),
            old(self).won && phase != PopupPhase::Finished ==> final(self).win_ticks == old(
                self,
            ).win_ticks + 1,
            old(self).won && phase == PopupPhase::Finished ==> final(self).win_ticks == old(
                self,
            ).win_ticks,
    {
        if !self.won {
            return PopupPhase::Inactive;
        }
        let ticks = self.win_ticks;
        if ticks <= POPUP_LAST_WAIT_TICK {
            self.win_ticks = ticks + 1;
            PopupPhase::Waiting
        } else if ticks <= POPUP_LAST_SHOWN_TICK {
            self.win_ticks = ticks + 1;
            PopupPhase::Shown
        } else {
            PopupPhase::Finished
        }
    }
}

} // verus!
