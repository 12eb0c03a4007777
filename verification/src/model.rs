//! The mathematical model of a game: what a session is, how it is drawn, and
//! how one guess changes it, followed by what holds of every game.
//!
//! Letters are compared as they are: `'A'` and `'a'` are two letters, and any
//! character at all may be guessed. A letter that is not in the word costs
//! one unit of the budget each time it is guessed, also when it was guessed
//! before. At zero the game is lost and the budget stays at zero; letters
//! guessed after that are still recorded and answered.

use crate::draw::seeded_index;
use vstd::prelude::*;

verus! {

/// The number of wrong guesses a fresh session tolerates.
pub const NUM_GUESSES: i32 = 5;

/// The character drawn in place of a letter that has not been guessed.
pub const BLANK: char = '_';

/// The character drawn between two neighbouring letters.
pub const GAP: char = ' ';

/// Why no game can be played on the word asked for.
#[derive(Clone, Copy, Debug, PartialEq, Eq)]
pub enum WordError {
    /// The list has no word at that position; of an empty list this holds
    /// for every position.
    Missing,
    /// The word at that position has no letters.
    Empty,
}

/// What `guess` answers in front of the display after a wrong guess that
/// leaves some budget.
pub open spec fn nope_banner() -> Seq<char> {
    "Nope -- "@
}

/// What `guess` answers in front of the secret word once the budget is spent.
pub open spec fn lose_banner() -> Seq<char> {
    "You lose. The word was "@
}

/// A game as a mathematical value.
pub struct Session {
    /// The word to be guessed.
    pub secret: Seq<char>,
    /// Every character proposed so far, right or wrong.
    pub guessed: Set<char>,
    /// How many wrong guesses are still tolerated.
    pub remaining: int,
}

/// The word with every letter outside `guessed` replaced by a blank.
pub open spec fn masked(secret: Seq<char>, guessed: Set<char>) -> Seq<char> {
    Seq::new(
        secret.len(),
        |i: int|
            if guessed.contains(secret[i]) {
                secret[i]
            } else {
                BLANK
            },
    )
}

/// The characters of `letters` with one gap between each two neighbours, and
/// none before the first or after the last.
pub open spec fn spaced(letters: Seq<char>) -> Seq<char> {
    if letters.len() == 0 {
        Seq::empty()
    } else {
        Seq::new(
            (2 * letters.len() - 1) as nat,
            |i: int|
                if i % 2 == 0 {
                    letters[i / 2]
                } else {
                    GAP
                },
        )
    }
}

impl Session {
    /// A session that can be played: the word has at least one letter, the
    /// letters guessed are finitely many and the budget lies between zero and
    /// `NUM_GUESSES`.
    pub open spec fn wf(self) -> bool {
        &&& self.secret.len() > 0
        &&& self.guessed.finite()
        &&& 0 <= self.remaining <= NUM_GUESSES
    }

    /// The session a game starts in: nothing guessed, the whole budget left.
    pub open spec fn start(secret: Seq<char>) -> Session {
        Session { secret, guessed: Set::empty(), remaining: NUM_GUESSES as int }
    }

    /// The game on the word at position `index` of `words`, if there is such
    /// a word and it has letters.
    pub open spec fn at(words: Seq<Seq<char>>, index: int) -> Result<Session, WordError> {
        if !(0 <= index < words.len()) {
            Err(WordError::Missing)
        } else if words[index].len() == 0 {
            Err(WordError::Empty)
        } else {
            Ok(Session::start(words[index]))
        }
    }

    /// The game on the word that `seed` selects from `words`.
    pub open spec fn drawn(words: Seq<Seq<char>>, seed: u64) -> Result<Session, WordError> {
        Session::at(words, seeded_index(seed, words.len()) as int)
    }

    /// The budget is spent: the game is lost.
    pub open spec fn lost(self) -> bool {
        self.remaining <= 0
    }

    /// What the player sees of the word.
    pub open spec fn display(self) -> Seq<char> {
        spaced(masked(self.secret, self.guessed))
    }

    /// `c` occurs in the word.
    pub open spec fn hits(self, c: char) -> bool {
        self.secret.contains(c)
    }

    /// The session after `c` was guessed. The letter joins the guessed ones
    /// in every case; a letter that is not in the word costs one unit of the
    /// budget, which never falls below zero.
    pub open spec fn guess(self, c: char) -> Session {
        Session {
            secret: self.secret,
            guessed: self.guessed.insert(c),
            remaining: if self.hits(c) || self.remaining <= 0 {
                self.remaining
            } else {
                self.remaining - 1
            },
        }
    }

    /// What `guess` answers when `c` is guessed in this session: the new
    /// display after a hit; after a miss the word itself behind the losing
    /// banner if no budget is left, else the new display behind the other
    /// banner.
    pub open spec fn reply(self, c: char) -> Seq<char> {
        let next = self.guess(c);
        if self.hits(c) {
            next.display()
        } else if next.lost() {
            lose_banner() + self.secret
        } else {
            nope_banner() + next.display()
        }
    }

    /// The session after the letters of `letters` were guessed one after the
    /// other, the first of them first.
    pub open spec fn play(self, letters: Seq<char>) -> Session
        decreases letters.len(),
    {
        if letters.len() == 0 {
            self
        } else {
            self.play(letters.drop_last()).guess(letters.last())
        }
    }
}

/// The display of a playable session has twice as many characters as the
/// word has letters, less one.
pub proof fn lemma_display_len(s: Session)
    requires
        s.wf(),
    ensures
        s.display().len() == 2 * s.secret.len() - 1,
{
}

/// A guess keeps the word, keeps every letter guessed before and adds its
/// own, never raises the budget, and leaves a playable session playable.
pub proof fn lemma_guess_monotone(s: Session, c: char)
    ensures
        s.guess(c).secret == s.secret,
        s.guessed.subset_of(s.guess(c).guessed),
        s.guess(c).guessed.contains(c),
        s.guess(c).remaining <= s.remaining,
        s.wf() ==> s.guess(c).wf(),
{
}

/// Over any run of guesses the word stays, the guessed letters only grow,
/// the budget only shrinks, a playable session stays playable, and the
/// display keeps its length.
pub proof fn lemma_play_monotone(s: Session, letters: Seq<char>)
    ensures
        s.play(letters).secret == s.secret,
        s.guessed.subset_of(s.play(letters).guessed),
        s.play(letters).remaining <= s.remaining,
        s.wf() ==> s.play(letters).wf(),
        s.wf() ==> s.play(letters).display().len() == 2 * s.secret.len() - 1,
    decreases letters.len(),
{
    if letters.len() > 0 {
        lemma_play_monotone(s, letters.drop_last());
        lemma_guess_monotone(s.play(letters.drop_last()), letters.last());
    }
}

/// Between any two moments of one run of guesses, the later one has the
/// smaller or equal budget and the larger or equal set of guessed letters.
pub proof fn lemma_play_prefix_monotone(s: Session, letters: Seq<char>, earlier: int, later: int)
    requires
        0 <= earlier <= later <= letters.len(),
    ensures
        s.play(letters.take(later)).remaining <= s.play(letters.take(earlier)).remaining,
        s.play(letters.take(earlier)).guessed.subset_of(s.play(letters.take(later)).guessed),
    decreases later - earlier,
{
    if earlier < later {
        lemma_play_prefix_monotone(s, letters, earlier, later - 1);
        assert(letters.take(later).drop_last() =~= letters.take(later - 1));
        lemma_guess_monotone(s.play(letters.take(later - 1)), letters[later - 1]);
    }
}

/// Guessing the same letter a second time shows what the first time
/// showed and adds no letter, and it costs no more than the first time did.
/// Where the letter is in the word, or the game was lost by then, it
/// changes nothing at all; and unless it spends the last of the budget, it
/// is answered as the first time.
pub proof fn lemma_guess_twice(s: Session, c: char)
    ensures
        s.guess(c).guess(c).display() == s.guess(c).display(),
        s.guess(c).guess(c).guessed == s.guess(c).guessed,
        s.guess(c).remaining - s.guess(c).guess(c).remaining <= s.remaining - s.guess(c).remaining,
        s.hits(c) || s.guess(c).lost() ==> s.guess(c).guess(c) == s.guess(c),
        s.hits(c) || s.guess(c).lost() || !s.guess(c).guess(c).lost() ==> s.guess(c).reply(c)
            == s.reply(c),
{
    assert(s.guess(c).guess(c).guessed =~= s.guess(c).guessed);
}

/// Which game is drawn depends on the list and the seed alone: the same
/// seed on the same list draws the same game.
pub proof fn lemma_same_seed_same_game(
    words: Seq<Seq<char>>,
    seed: u64,
    other_words: Seq<Seq<char>>,
    other_seed: u64,
)
    requires
        words == other_words,
        seed == other_seed,
    ensures
        Session::drawn(words, seed) == Session::drawn(other_words, other_seed),
{
}

/// A game that is drawn is a fresh, playable game on a word of the list;
/// from an empty list none is drawn.
pub proof fn lemma_drawn_from_list(words: Seq<Seq<char>>, seed: u64)
    ensures
        words.len() == 0 ==> Session::drawn(words, seed) == Err::<Session, WordError>(
            WordError::Missing,
        ),
        Session::drawn(words, seed) matches Ok(s) ==> {
            &&& words.contains(s.secret)
            &&& s == Session::start(s.secret)
            &&& s.wf()
        },
{
}

} // verus!
