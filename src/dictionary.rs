use vstd::prelude::*;

use rand::seq::SliceRandom;

use crate::letters::{is_secret_word, is_upper_letter, to_upper, upper_word};

verus! {

#[verifier::external_type_specification]
#[verifier::external_body]
pub struct ExJsonError(serde_json::Error);

/// The words that a JSON text holds when it is an array of strings, and
/// nothing otherwise.
pub uninterp spec fn json_word_array(text: Seq<char>) -> Option<Seq<Seq<char>>>;

/// Relies on serde_json::from_str into `Vec<String>`: it succeeds exactly on
/// a JSON array of strings, and then yields those strings in order.
#[verifier::external_body]
fn parse_word_array(text: &str) -> (r: Result<Vec<Vec<char>>, serde_json::Error>)
    ensures
        match r {
            Ok(words) => json_word_array(text@) == Some(words.deep_view()),
            Err(_) => json_word_array(text@) is None,
        },
{
    serde_json::from_str::<Vec<String>>(text).map(
        |words| words.iter().map(|w| w.chars().collect()).collect(),
    )
}

/// Relies on rand's `SliceRandom::choose` with the thread-local generator:
/// `None` on an empty slice, else one of its elements.
#[verifier::external_body]
fn choose_word(words: &Vec<Vec<char>>) -> (r: Option<Vec<char>>)
    ensures
        (r is None) == (words@.len() == 0),
        r is Some ==> exists|i: int| 0 <= i < words@.len() && #[trigger] words@[i]@ == r->0@,
{
    words.choose(&mut rand::thread_rng()).cloned()
}

/// Why no word could be had.
#[derive(Clone, Copy, Debug, PartialEq, Eq, Structural)]
pub enum DictionaryError {
    /// The word source is missing, malformed, empty, or holds a word that
    /// cannot serve as a secret.
    Unavailable,
}

/// The legal words, as loaded (lower case in the usual word source).
pub struct WordList {
    pub words: Vec<Vec<char>>,
}

impl View for WordList {
    type V = Seq<Seq<char>>;

    open spec fn view(&self) -> Seq<Seq<char>> {
        self.words.deep_view()
    }
}

/// Every word of the list, upper-cased, is five ASCII letters.
pub open spec fn all_secret_shaped(words: Seq<Seq<char>>) -> bool {
    forall|i: int| 0 <= i < words.len() ==> is_secret_word(upper_word(#[trigger] words[i]))
}

fn same_word(a: &Vec<char>, b: &Vec<char>) -> (r: bool)
    ensures
        r == (a@ == b@),
{
    if a.len() != b.len() {
        return false;
    }
    let mut i: usize = 0;
    while i < a.len()
        invariant
            a@.len() == b@.len(),
            0 <= i <= a@.len(),
            forall|k: int| 0 <= k < i ==> a@[k] == b@[k],
        decreases a@.len() - i,
    {
        if a[i] != b[i] {
            return false;
        }
        i += 1;
    }
    assert(a@ =~= b@);
    true
}

/// Five upper-cased letters from `w` when they make a secret word.
fn secret_from_letters(w: &Vec<char>) -> (r: Option<[char; 5]>)
    ensures
        r is Some == is_secret_word(upper_word(w@)),
        r is Some ==> r->0@ == upper_word(w@),
{
    if w.len() != 5 {
        return None;
    }
    let mut out: [char; 5] = [' ', ' ', ' ', ' ', ' '];
    let mut i: usize = 0;
    while i < 5
        invariant
            w@.len() == 5,
            0 <= i <= 5,
            forall|k: int| 0 <= k < i ==> out@[k] == upper_word(w@)[k],
            forall|k: int| 0 <= k < i ==> 'A' <= #[trigger] out@[k] <= 'Z',
        decreases 5 - i,
    {
        let c = to_upper(w[i]);
        if !('A' <= c && c <= 'Z') {
            assert(!is_upper_letter(upper_word(w@)[i as int]));
            return None;
        }
        out[i] = c;
        i += 1;
    }
    assert(out@ =~= upper_word(w@));
    Some(out)
}

/// The secret word that `word` names: its ASCII upper-casing, when that is
/// five upper-case letters.
pub fn secret_from_word(word: &str) -> (r: Option<[char; 5]>)
    ensures
        r is Some == is_secret_word(upper_word(word@)),
        r is Some ==> r->0@ == upper_word(word@),
{
    let n = word.unicode_len();
    let mut letters: Vec<char> = Vec::new();
    let mut i: usize = 0;
    while i < n
        invariant
            n == word@.len(),
            0 <= i <= n,
            letters@ == word@.subrange(0, i as int),
        decreases n - i,
    {
        letters.push(word.get_char(i));
        i += 1;
    }
    assert(letters@ =~= word@);
    secret_from_letters(&letters)
}

/// The fixed secret word used for demonstrations.
pub fn get_debug_word() -> (r: String)
    ensures
        r@ == "AUDIO"@,
{
    String::from_str("AUDIO")
}

impl WordList {
    /// A list holding exactly `words`.
    pub fn new(words: Vec<Vec<char>>) -> (r: WordList)
        ensures
            r@ == words.deep_view(),
    {
        WordList { words }
    }

    /// Loads the list from a JSON array of strings; an unreadable or empty
    /// list is unavailable.
    pub fn from_json(text: &str) -> (r: Result<WordList, DictionaryError>)
        ensures
            match r {
                Ok(list) => json_word_array(text@) == Some(list@) && list@.len() > 0,
                Err(e) => e == DictionaryError::Unavailable && (json_word_array(text@) is None
                    || json_word_array(text@)->0.len() == 0),
            },
    {
        match parse_word_array(text) {
            Ok(words) => {
                if words.len() == 0 {
                    Err(DictionaryError::Unavailable)
                } else {
                    Ok(WordList { words })
                }
            },
            Err(_) => Err(DictionaryError::Unavailable),
        }
    }

    /// Membership, letter for letter: callers pass the normalised (lower-case)
    /// form.
    pub fn is_valid(&self, word: &Vec<char>) -> (r: bool)
        ensures
            r == self@.contains(word@),
    {
        let mut i: usize = 0;
        while i < self.words.len()
            invariant
                0 <= i <= self.words@.len(),
                forall|k: int| 0 <= k < i ==> self.words@[k]@ != word@,
            decreases self.words@.len() - i,
        {
            if same_word(&self.words[i], word) {
                assert(self@[i as int] == word@);
                return true;
            }
            i += 1;
        }
        assert(!self@.contains(word@)) by {
            if self@.contains(word@) {
                let k = choose|k: int| 0 <= k < self@.len() && self@[k] == word@;
                assert(self.words@[k]@ == word@);
            }
        }
        false
    }

    /// A random word of the list, upper-cased. Fails on an empty list, or
    /// when the word drawn is not five ASCII letters.
    pub fn pick_secret(&self) -> (r: Result<[char; 5], DictionaryError>)
        ensures
            match r {
                Ok(s) => exists|i: int|
                    0 <= i < self@.len() && upper_word(#[trigger] self@[i]) == s@
                        && is_secret_word(s@),
                Err(e) => e == DictionaryError::Unavailable && (self@.len() == 0
                    || !all_secret_shaped(self@)),
            },
            self@.len() > 0 && all_secret_shaped(self@) ==> r is Ok,
    {
        match choose_word(&self.words) {
            None => Err(DictionaryError::Unavailable),
            Some(w) => {
                let ghost i = choose|i: int| 0 <= i < self.words@.len() && #[trigger] self.words@[i]@ == w@;
                assert(self@[i] == w@);
                match secret_from_letters(&w) {
                    Some(s) => Ok(s),
                    None => Err(DictionaryError::Unavailable),
                }
            },
        }
    }
}

} // verus!
