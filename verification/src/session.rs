//! The game itself: a session that owns its secret word and is played by
//! guessing one letter at a time.

use crate::draw::{draw, seeded_index};
use crate::model::{masked, spaced, Session, WordError, BLANK, GAP, NUM_GUESSES};
use crate::text::has_char;
use std::collections::HashSet;
use vstd::prelude::*;

verus! {

/// One game: the secret word, the letters guessed so far, and the number of
/// wrong guesses still allowed. Its view is the `Session` that the contracts
/// speak of. The word always has a letter and the budget always lies between
/// zero and `NUM_GUESSES`.
#[derive(Debug, PartialEq, Eq)]
pub struct Hangman {
    word: String,
    letters_guessed: HashSet<u32>,
    parts_left: i32,
}

/// The letters whose code points `codes` holds.
spec fn letters_of(codes: Set<u32>) -> Set<char> {
    Set::new(|c: char| codes.contains(c as u32))
}

/// `u` is the code point of some letter.
spec fn is_code(u: u32) -> bool {
    u <= 0xD7FF || 0xE000 <= u <= 0x10FFFF
}

/// A letter and its code point are the same number, and the letter comes
/// back from it.
proof fn lemma_code_of_letter(c: char)
    ensures
        c as u32 == c as int,
        is_code(c as u32),
        (c as u32) as char == c,
{
}

/// A code point comes back from its letter.
proof fn lemma_letter_of_code(u: u32)
    requires
        is_code(u),
    ensures
        (u as char) as u32 == u,
{
}

/// Putting the code point of `c` into `codes` adds the letter `c` and no
/// other.
proof fn lemma_letters_insert(codes: Set<u32>, c: char)
    ensures
        letters_of(codes.insert(c as u32)) == letters_of(codes).insert(c),
{
    let grown = letters_of(codes.insert(c as u32));
    let added = letters_of(codes).insert(c);
    assert forall|d: char| grown.contains(d) == added.contains(d) by {
        lemma_code_of_letter(d);
    }
    assert(grown =~= added);
}

/// A finite set of code points holds as many letters as it has members.
proof fn lemma_letters_len(codes: Set<u32>)
    requires
        codes.finite(),
        forall|u: u32| codes.contains(u) ==> is_code(u),
    ensures
        letters_of(codes).finite(),
        letters_of(codes).len() == codes.len(),
{
    let letter = |u: u32| u as char;
    assert forall|d: char| codes.map(letter).contains(d) == letters_of(codes).contains(d) by {
        lemma_code_of_letter(d);
        if letters_of(codes).contains(d) {
            assert(codes.contains(d as u32) && d == letter(d as u32));
        }
        if codes.map(letter).contains(d) {
            let u = choose|u: u32| codes.contains(u) && d == letter(u);
            lemma_letter_of_code(u);
        }
    }
    assert(codes.map(letter) =~= letters_of(codes));
    assert forall|u: u32, v: u32|
        codes.contains(u) && codes.contains(v) && #[trigger] letter(u) == #[trigger] letter(
            v,
        ) implies u == v by {
        lemma_letter_of_code(u);
        lemma_letter_of_code(v);
    }
    assert(vstd::relations::injective_on(letter, codes));
    vstd::set_lib::lemma_map_size(codes, letters_of(codes), letter);
}

impl View for Hangman {
    type V = Session;

    closed spec fn view(&self) -> Session {
        Session {
            secret: self.word@,
            guessed: letters_of(self.letters_guessed@),
            remaining: self.parts_left as int,
        }
    }
}

impl Hangman {
    #[verifier::type_invariant]
    spec fn inv(&self) -> bool {
        &&& self.word@.len() > 0
        &&& self.letters_guessed@.finite()
        &&& forall|u: u32| self.letters_guessed@.contains(u) ==> is_code(u)
        &&& 0 <= self.parts_left <= NUM_GUESSES
    }

    /// What the invariant of the type says of the view.
    proof fn lemma_view_wf(&self)
        requires
            self.inv(),
        ensures
            self@.wf(),
            self@.guessed.len() == self.letters_guessed@.len(),
    {
        lemma_letters_len(self.letters_guessed@);
    }

    /// A fresh game on the word at position `index` of `words`.
    pub fn at(words: &Vec<String>, index: usize) -> (res: Result<Hangman, WordError>)
        ensures
            Hangman::outcome(res) == Session::at(words.deep_view(), index as int),
    {
        if index >= words.len() {
            return Err(WordError::Missing);
        }
        let word = words[index].clone();
        assert(word@ == words.deep_view()[index as int]);
        if word.as_str().is_empty() {
            return Err(WordError::Empty);
        }
        let game = Hangman { word, letters_guessed: HashSet::new(), parts_left: NUM_GUESSES };
        assert(game@.guessed =~= Set::<char>::empty());
        Ok(game)
    }

    /// A fresh game on a word of `words` that `seed` selects: the same seed
    /// on the same list selects the same word.
    pub fn new(words: &Vec<String>, seed: u64) -> (res: Result<Hangman, WordError>)
        ensures
            Hangman::outcome(res) == Session::drawn(words.deep_view(), seed),
            words@.len() > 0 ==> seeded_index(seed, words@.len()) < words@.len(),
    {
        match draw(seed, words.len()) {
            None => Err(WordError::Missing),
            Some(index) => Hangman::at(words, index),
        }
    }

    /// The outcome of a construction with the game, if there is one, taken
    /// by its view.
    pub open spec fn outcome(res: Result<Hangman, WordError>) -> Result<Session, WordError> {
        match res {
            Ok(game) => Ok(game@),
            Err(e) => Err(e),
        }
    }

    /// The word as the player may see it: guessed letters in the open, a
    /// blank for each of the others, single spaces in between.
    pub fn show(&self) -> (out: String)
        ensures
            self@.wf(),
            out@ == self@.display(),
            out@.len() == 2 * self@.secret.len() - 1,
    {
        proof {
            use_type_invariant(self);
            self.lemma_view_wf();
        }
        let mut out = String::new();
        let mut first = true;
        for c in it: self.word.as_str().chars()
            invariant
                it.seq() == self.word@,
                first == (it.index() == 0),
                out@ == spaced(masked(self.word@, self@.guessed).take(it.index())),
        {
            if !first {
                out.push(GAP);
            }
            first = false;
            if self.letters_guessed.contains(&(c as u32)) {
                out.push(c);
            } else {
                out.push(BLANK);
            }
        }
        out
    }

    /// Plays the letter `c` and answers what came of it: the display if `c`
    /// is in the word; else the display behind `Nope -- `, or the word behind
    /// `You lose. The word was ` once no budget is left.
    pub fn guess(&mut self, c: char) -> (reply: String)
        ensures
            old(self)@.wf(),
            final(self)@.wf(),
            final(self)@ == old(self)@.guess(c),
            reply@ == old(self)@.reply(c),
    {
        proof {
            use_type_invariant(&*self);
            self.lemma_view_wf();
        }
        // The set is taken out while it grows: a call that may unwind cannot
        // borrow a field of a type that has an invariant.
        let mut letters = HashSet::new();
        std::mem::swap(&mut self.letters_guessed, &mut letters);
        letters.insert(c as u32);
        std::mem::swap(&mut self.letters_guessed, &mut letters);
        proof {
            lemma_code_of_letter(c);
            lemma_letters_insert(old(self).letters_guessed@, c);
        }
        if has_char(self.word.as_str(), c) {
            self.show()
        } else {
            if self.parts_left > 0 {
                self.parts_left -= 1;
            }
            if self.parts_left <= 0 {
                let mut reply = String::from_str("You lose. The word was ");
                reply.append(self.word.as_str());
                reply
            } else {
                let mut reply = String::from_str("Nope -- ");
                reply.append(self.show().as_str());
                reply
            }
        }
    }

    /// The secret word.
    pub fn word(&self) -> (word: &str)
        ensures
            word@ == self@.secret,
            word@.len() > 0,
    {
        proof {
            use_type_invariant(self);
        }
        self.word.as_str()
    }

    /// How many wrong guesses the game still tolerates; at zero it is lost.
    pub fn parts_left(&self) -> (left: i32)
        ensures
            left == self@.remaining,
            0 <= left <= NUM_GUESSES,
    {
        proof {
            use_type_invariant(self);
        }
        self.parts_left
    }

    /// Whether the letter `c` has been guessed, rightly or wrongly.
    pub fn has_guessed(&self, c: char) -> (guessed: bool)
        ensures
            guessed == self@.guessed.contains(c),
    {
        self.letters_guessed.contains(&(c as u32))
    }

    /// How many different letters have been guessed.
    pub fn guessed_count(&self) -> (count: usize)
        ensures
            self@.guessed.finite(),
            count == self@.guessed.len(),
    {
        proof {
            use_type_invariant(self);
            self.lemma_view_wf();
        }
        self.letters_guessed.len()
    }
}

} // verus!
