use vstd::prelude::*;

use crate::count::{
    count_true, lemma_count_congruent, lemma_count_disjoint_union, lemma_count_one_more,
    lemma_count_positive, lemma_count_zero,
};

verus! {

/// Letters in a word, and cells in a row.
pub const WORD_LEN: usize = 5;

/// Feedback for one letter slot.
#[derive(Clone, Copy, Debug, PartialEq, Eq, Structural)]
pub enum CellStatus {
    /// Not scored yet.
    Empty,
    /// The letter is in the secret at this position.
    Correct,
    /// The letter is in the secret at another, still unmatched, position.
    Present,
    /// The letter is not (or no longer) available in the secret.
    Absent,
}

/// Positions `k < n` where the guess misses the secret and the secret holds `c`:
/// the copies of `c` left over for misplaced matches.
pub open spec fn unmatched_in_secret(guess: Seq<char>, secret: Seq<char>, c: char, n: int) -> nat {
    count_true(n, secret_holds_unmatched(guess, secret, c))
}

/// Whether position `k` is missed and the secret holds `c` there.
pub open spec fn secret_holds_unmatched(guess: Seq<char>, secret: Seq<char>, c: char) -> spec_fn(
    int,
) -> bool {
    |k: int| secret[k] == c && guess[k] != secret[k]
}

/// Whether position `k` is missed and the guess holds `c` there.
pub open spec fn guess_holds_unmatched(guess: Seq<char>, secret: Seq<char>, c: char) -> spec_fn(
    int,
) -> bool {
    |k: int| guess[k] == c && guess[k] != secret[k]
}

/// Whether slot `k` of a working copy holds `c`.
pub open spec fn slot_holds(rem: Seq<Option<char>>, c: char) -> spec_fn(int) -> bool {
    |k: int| rem[k] == Some(c)
}

/// Positions `k < n` where the guess misses the secret and the guess holds `c`.
pub open spec fn unmatched_in_guess(guess: Seq<char>, secret: Seq<char>, c: char, n: int) -> nat {
    count_true(n, guess_holds_unmatched(guess, secret, c))
}

/// The status of position `i`: exact matches are correct; a missed letter is
/// present while the secret still has an unmatched copy of it once the same
/// letter's earlier missed positions in the guess have taken theirs.
pub open spec fn status_at(guess: Seq<char>, secret: Seq<char>, i: int) -> CellStatus {
    if guess[i] == secret[i] {
        CellStatus::Correct
    } else if unmatched_in_guess(guess, secret, guess[i], i) < unmatched_in_secret(
        guess,
        secret,
        guess[i],
        WORD_LEN as int,
    ) {
        CellStatus::Present
    } else {
        CellStatus::Absent
    }
}

/// The statuses of a whole guess.
pub open spec fn score_of(guess: Seq<char>, secret: Seq<char>) -> Seq<CellStatus> {
    Seq::new(WORD_LEN as nat, |i: int| status_at(guess, secret, i))
}

/// Slots `k < n` of a working copy that still hold `c`.
pub open spec fn remaining_copies(rem: Seq<Option<char>>, c: char, n: int) -> nat {
    count_true(n, slot_holds(rem, c))
}

proof fn lemma_working_copy_after_exact_pass(
    guess: Seq<char>,
    secret: Seq<char>,
    rem: Seq<Option<char>>,
    c: char,
)
    requires
        rem.len() == WORD_LEN,
        guess.len() == WORD_LEN,
        secret.len() == WORD_LEN,
        forall|k: int|
            0 <= k < WORD_LEN ==> #[trigger] rem[k] == (if guess[k] == secret[k] {
                None
            } else {
                Some(secret[k])
            }),
    ensures
        remaining_copies(rem, c, WORD_LEN as int) == unmatched_in_secret(
            guess,
            secret,
            c,
            WORD_LEN as int,
        ),
{
    let p = slot_holds(rem, c);
    let q = secret_holds_unmatched(guess, secret, c);
    assert forall|k: int| 0 <= k < WORD_LEN implies #[trigger] p(k) == q(k) by {
        assert(rem[k] == (if guess[k] == secret[k] { None } else { Some(secret[k]) }));
    }
    lemma_count_congruent(WORD_LEN as int, p, q);
}

fn holds_letter(slot: Option<char>, c: char) -> (r: bool)
    ensures
        r == (slot == Some(c)),
{
    match slot {
        Some(x) => x == c,
        None => false,
    }
}

/// Scores a guess against the secret in two passes: exact matches first, each
/// removing its letter from a working copy of the secret; then, left to right,
/// each other position takes the first remaining copy of its letter (present)
/// or finds none (absent).
pub fn score_guess(guess: &[char; 5], secret: &[char; 5]) -> (r: [CellStatus; 5])
    ensures
        r@ == score_of(guess@, secret@),
{
    let g = Ghost(guess@);
    let s = Ghost(secret@);
    let mut status: [CellStatus; 5] = [
        CellStatus::Absent,
        CellStatus::Absent,
        CellStatus::Absent,
        CellStatus::Absent,
        CellStatus::Absent,
    ];
    let mut rem: [Option<char>; 5] = [
        Some(secret[0]),
        Some(secret[1]),
        Some(secret[2]),
        Some(secret[3]),
        Some(secret[4]),
    ];
    let mut i: usize = 0;
    while i < WORD_LEN
        invariant
            0 <= i <= WORD_LEN,
            g@ == guess@,
            s@ == secret@,
            forall|k: int|
                0 <= k < i ==> rem@[k] == (if g@[k] == s@[k] {
                    None
                } else {
                    Some(s@[k])
                }),
            forall|k: int| i <= k < WORD_LEN ==> rem@[k] == Some(s@[k]),
            forall|k: int| 0 <= k < i ==> (status@[k] == CellStatus::Correct <==> g@[k] == s@[k]),
            forall|k: int| i <= k < WORD_LEN ==> status@[k] == CellStatus::Absent,
        decreases WORD_LEN - i,
    {
        if guess[i] == secret[i] {
            status[i] = CellStatus::Correct;
            rem[i] = None;
        }
        i += 1;
    }
    proof {
        assert forall|c: char|
            #[trigger] remaining_copies(rem@, c, WORD_LEN as int) == unmatched_in_secret(
                g@,
                s@,
                c,
                WORD_LEN as int,
            ) by {
            lemma_working_copy_after_exact_pass(g@, s@, rem@, c);
        }
    }
    let mut i: usize = 0;
    while i < WORD_LEN
        invariant
            0 <= i <= WORD_LEN,
            g@ == guess@,
            s@ == secret@,
            forall|k: int| 0 <= k < i ==> status@[k] == status_at(g@, s@, k),
            forall|k: int|
                i <= k < WORD_LEN ==> (status@[k] == CellStatus::Correct <==> g@[k] == s@[k]),
            forall|c: char|
                #[trigger] remaining_copies(rem@, c, WORD_LEN as int) == if unmatched_in_guess(
                    g@,
                    s@,
                    c,
                    i as int,
                ) < unmatched_in_secret(g@, s@, c, WORD_LEN as int) {
                    unmatched_in_secret(g@, s@, c, WORD_LEN as int) - unmatched_in_guess(
                        g@,
                        s@,
                        c,
                        i as int,
                    )
                } else {
                    0
                },
        decreases WORD_LEN - i,
    {
        let ghost before = rem@;
        if status[i] != CellStatus::Correct {
            let c0 = guess[i];
            let mut p: usize = 0;
            while p < WORD_LEN && !holds_letter(rem[p], c0)
                invariant
                    0 <= p <= WORD_LEN,
                    rem@ == before,
                    forall|k: int| 0 <= k < p ==> rem@[k] != Some(c0),
                decreases WORD_LEN - p,
            {
                p += 1;
            }
            if p < WORD_LEN {
                proof {
                    lemma_count_positive(WORD_LEN as int, slot_holds(before, c0), p as int);
                    assert(remaining_copies(before, c0, WORD_LEN as int) > 0);
                    assert(status_at(g@, s@, i as int) == CellStatus::Present);
                }
                status[i] = CellStatus::Present;
                rem[p] = None;
                proof {
                    assert forall|c: char|
                        #[trigger] remaining_copies(rem@, c, WORD_LEN as int) == remaining_copies(
                            before,
                            c,
                            WORD_LEN as int,
                        ) - if c == c0 {
                            1int
                        } else {
                            0int
                        } by {
                        if c == c0 {
                            lemma_count_one_more(
                                WORD_LEN as int,
                                slot_holds(before, c),
                                slot_holds(rem@, c),
                                p as int,
                            );
                        } else {
                            lemma_count_congruent(
                                WORD_LEN as int,
                                slot_holds(before, c),
                                slot_holds(rem@, c),
                            );
                        }
                    }
                }
            } else {
                status[i] = CellStatus::Absent;
                proof {
                    lemma_count_zero(WORD_LEN as int, slot_holds(before, c0));
                    assert(remaining_copies(before, c0, WORD_LEN as int) == 0);
                    assert(status_at(g@, s@, i as int) == CellStatus::Absent);
                }
            }
        }
        proof {
            assert forall|c: char|
                #[trigger] unmatched_in_guess(g@, s@, c, i + 1) == unmatched_in_guess(
                    g@,
                    s@,
                    c,
                    i as int,
                ) + if c == g@[i as int] && g@[i as int] != s@[i as int] {
                    1int
                } else {
                    0int
                } by {}
        }
        i += 1;
    }
    proof {
        assert(status@ =~= score_of(g@, s@));
    }
    status
}

/// Whether position `k` of `word` holds `c`.
pub open spec fn letter_at(word: Seq<char>, c: char) -> spec_fn(int) -> bool {
    |k: int| word[k] == c
}

/// How often `c` occurs in a word.
pub open spec fn occurrences(word: Seq<char>, c: char) -> nat {
    count_true(WORD_LEN as int, letter_at(word, c))
}

/// Whether position `k` of the guess holds `c` and scores correct or present.
pub open spec fn hit_of(guess: Seq<char>, secret: Seq<char>, c: char) -> spec_fn(int) -> bool {
    |k: int|
        guess[k] == c && (status_at(guess, secret, k) == CellStatus::Correct || status_at(
            guess,
            secret,
            k,
        ) == CellStatus::Present)
}

/// Positions of the guess that hold `c` and score correct or present.
pub open spec fn hits(guess: Seq<char>, secret: Seq<char>, c: char) -> nat {
    count_true(WORD_LEN as int, hit_of(guess, secret, c))
}

/// Whether position `k` is an exact match on `c`.
pub open spec fn exact_on(guess: Seq<char>, secret: Seq<char>, c: char) -> spec_fn(int) -> bool {
    |k: int| secret[k] == c && guess[k] == secret[k]
}

/// Whether position `k` holds `c` and scores present.
pub open spec fn present_on(guess: Seq<char>, secret: Seq<char>, c: char) -> spec_fn(int) -> bool {
    |k: int|
        guess[k] == c && guess[k] != secret[k] && unmatched_in_guess(guess, secret, c, k)
            < unmatched_in_secret(guess, secret, c, WORD_LEN as int)
}

/// With no letter repeated in the guess, position `i` is correct exactly when
/// the letters there agree, present exactly when the guess letter occurs in
/// the secret at another position, and absent otherwise.
pub proof fn lemma_distinct_guess_scoring(guess: Seq<char>, secret: Seq<char>, i: int)
    requires
        guess.len() == WORD_LEN,
        secret.len() == WORD_LEN,
        0 <= i < WORD_LEN,
        forall|j: int, k: int|
            0 <= j < WORD_LEN && 0 <= k < WORD_LEN && j != k ==> guess[j] != guess[k],
    ensures
        (status_at(guess, secret, i) == CellStatus::Correct) == (guess[i] == secret[i]),
        (status_at(guess, secret, i) == CellStatus::Present) == (guess[i] != secret[i] && exists|
            k: int,
        |
            0 <= k < WORD_LEN && k != i && #[trigger] secret[k] == guess[i]),
        (status_at(guess, secret, i) == CellStatus::Absent) == (guess[i] != secret[i] && !exists|
            k: int,
        |
            0 <= k < WORD_LEN && k != i && #[trigger] secret[k] == guess[i]),
{
    let c = guess[i];
    if guess[i] != secret[i] {
        assert forall|k: int| 0 <= k < i implies !#[trigger] guess_holds_unmatched(
            guess,
            secret,
            c,
        )(k) by {
            assert(guess[k] != guess[i]);
        }
        lemma_count_zero(i, guess_holds_unmatched(guess, secret, c));
        if exists|k: int| 0 <= k < WORD_LEN && k != i && #[trigger] secret[k] == guess[i] {
            let k = choose|k: int| 0 <= k < WORD_LEN && k != i && #[trigger] secret[k] == guess[i];
            assert(guess[k] != guess[i]);
            lemma_count_positive(WORD_LEN as int, secret_holds_unmatched(guess, secret, c), k);
        } else {
            assert forall|k: int| 0 <= k < WORD_LEN implies !#[trigger] secret_holds_unmatched(
                guess,
                secret,
                c,
            )(k) by {
                if k != i {
                    assert(secret[k] != guess[i]);
                }
            }
            lemma_count_zero(WORD_LEN as int, secret_holds_unmatched(guess, secret, c));
        }
    }
}

proof fn lemma_present_count(guess: Seq<char>, secret: Seq<char>, c: char, n: int)
    requires
        0 <= n <= WORD_LEN,
    ensures
        count_true(n, present_on(guess, secret, c)) == if unmatched_in_guess(guess, secret, c, n)
            < unmatched_in_secret(guess, secret, c, WORD_LEN as int) {
            unmatched_in_guess(guess, secret, c, n)
        } else {
            unmatched_in_secret(guess, secret, c, WORD_LEN as int)
        },
    decreases n,
{
    if n > 0 {
        lemma_present_count(guess, secret, c, n - 1);
    }
}

/// No letter scores correct or present more often than the secret holds it.
pub proof fn lemma_hits_bounded_by_secret(guess: Seq<char>, secret: Seq<char>, c: char)
    requires
        guess.len() == WORD_LEN,
        secret.len() == WORD_LEN,
    ensures
        hits(guess, secret, c) <= occurrences(secret, c),
{
    let n = WORD_LEN as int;
    lemma_present_count(guess, secret, c, n);
    lemma_count_disjoint_union(
        n,
        exact_on(guess, secret, c),
        present_on(guess, secret, c),
        hit_of(guess, secret, c),
    );
    lemma_count_disjoint_union(
        n,
        exact_on(guess, secret, c),
        secret_holds_unmatched(guess, secret, c),
        letter_at(secret, c),
    );
}

/// A guess scores correct at every position exactly when it is the secret.
pub proof fn lemma_all_correct_iff_secret(guess: Seq<char>, secret: Seq<char>)
    requires
        guess.len() == WORD_LEN,
        secret.len() == WORD_LEN,
    ensures
        (forall|i: int| 0 <= i < WORD_LEN ==> #[trigger] status_at(guess, secret, i) == CellStatus::Correct)
            == (guess == secret),
{
    if forall|i: int| 0 <= i < WORD_LEN ==> #[trigger] status_at(guess, secret, i) == CellStatus::Correct {
        assert forall|i: int| 0 <= i < WORD_LEN implies guess[i] == secret[i] by {
            assert(status_at(guess, secret, i) == CellStatus::Correct);
        }
        assert(guess =~= secret);
    }
}

} // verus!
