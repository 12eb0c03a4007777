use hangman::{Hangman, WordError, NUM_GUESSES};

fn game_on(word: &str) -> Hangman {
    Hangman::at(&vec![word.to_string()], 0).unwrap()
}

#[test]
fn budget_is_five() {
    assert_eq!(NUM_GUESSES, 5);
    assert_eq!(game_on("cat").parts_left(), 5);
}

#[test]
fn cat_with_a_guessed() {
    let mut hm = game_on("cat");
    assert_eq!(hm.show(), "_ _ _");
    assert_eq!(hm.guess('a'), "_ a _");
    assert_eq!(hm.show(), "_ a _");
}

#[test]
fn show_changes_nothing() {
    let mut hm = game_on("cat");
    hm.guess('t');
    assert_eq!(hm.show(), "_ _ t");
    assert_eq!(hm.show(), "_ _ t");
    assert_eq!(hm.parts_left(), 5);
    assert_eq!(hm.guessed_count(), 1);
}

#[test]
fn display_of_one_letter_has_no_space() {
    let mut hm = game_on("a");
    assert_eq!(hm.show(), "_");
    assert_eq!(hm.guess('a'), "a");
}

#[test]
fn display_length_is_twice_the_word_less_one() {
    for word in ["a", "ox", "cat", "rebroadened", "floccinaucinihilipilification"] {
        let mut hm = game_on(word);
        let want = 2 * word.chars().count() - 1;
        assert_eq!(hm.show().chars().count(), want);
        for c in ['e', 'z', 'a', 'o', 'q', 'x', 'i', 'j', 'k'] {
            hm.guess(c);
            assert_eq!(hm.show().chars().count(), want);
        }
    }
}

#[test]
fn right_guess_twice_changes_nothing_more() {
    let mut hm = game_on("rebroadened");
    let first = hm.guess('e');
    let left = hm.parts_left();
    let count = hm.guessed_count();
    let second = hm.guess('e');
    assert_eq!(first, "_ e _ _ _ _ _ e _ e _");
    assert_eq!(second, first);
    assert_eq!(hm.parts_left(), left);
    assert_eq!(hm.parts_left(), 5);
    assert_eq!(hm.guessed_count(), count);
}

#[test]
fn wrong_guess_twice_shows_the_same_and_costs_each_time() {
    let mut hm = game_on("rebroadened");
    assert_eq!(hm.guess('z'), "Nope -- _ _ _ _ _ _ _ _ _ _ _");
    let shown = hm.show();
    assert_eq!(hm.parts_left(), 4);
    assert_eq!(hm.guess('z'), "Nope -- _ _ _ _ _ _ _ _ _ _ _");
    assert_eq!(hm.show(), shown);
    assert_eq!(hm.parts_left(), 3);
    assert_eq!(hm.guessed_count(), 1);
}

#[test]
fn budget_never_rises_and_letters_stay() {
    let mut hm = game_on("rebroadened");
    let mut seen: Vec<char> = Vec::new();
    let mut left = hm.parts_left();
    for c in "rzebqrxoaydwevnkd".chars() {
        hm.guess(c);
        seen.push(c);
        assert!(hm.parts_left() <= left);
        assert!(hm.parts_left() >= 0);
        left = hm.parts_left();
        for d in &seen {
            assert!(hm.has_guessed(*d));
        }
        assert_eq!(hm.word(), "rebroadened");
    }
    assert_eq!(left, 0);
}

#[test]
fn budget_stops_at_zero() {
    let mut hm = game_on("cat");
    for c in ['b', 'd', 'e', 'f'] {
        assert_eq!(hm.guess(c), "Nope -- _ _ _");
    }
    assert_eq!(hm.guess('g'), "You lose. The word was cat");
    assert_eq!(hm.parts_left(), 0);
    assert_eq!(hm.guess('h'), "You lose. The word was cat");
    assert_eq!(hm.parts_left(), 0);
    assert_eq!(hm.guess('h'), "You lose. The word was cat");
    assert_eq!(hm.parts_left(), 0);
    assert!(hm.has_guessed('h'));
    assert_eq!(hm.guessed_count(), 6);
}

#[test]
fn right_guess_after_the_loss_still_shows() {
    let mut hm = game_on("cat");
    for c in ['b', 'd', 'e', 'f', 'g'] {
        hm.guess(c);
    }
    assert_eq!(hm.parts_left(), 0);
    assert_eq!(hm.guess('c'), "c _ _");
    assert_eq!(hm.parts_left(), 0);
    assert_eq!(hm.show(), "c _ _");
}

#[test]
fn last_unit_of_budget_is_kept_by_a_right_guess() {
    let mut hm = game_on("cat");
    for c in ['b', 'd', 'e', 'f'] {
        hm.guess(c);
    }
    assert_eq!(hm.parts_left(), 1);
    assert_eq!(hm.guess('a'), "_ a _");
    assert_eq!(hm.parts_left(), 1);
    assert_eq!(hm.guess('q'), "You lose. The word was cat");
}

#[test]
fn capital_and_small_letters_differ() {
    let mut hm = game_on("Anna");
    assert_eq!(hm.guess('a'), "_ _ _ a");
    assert_eq!(hm.parts_left(), 5);
    assert!(!hm.has_guessed('A'));
    assert_eq!(hm.guess('A'), "A _ _ a");
    assert_eq!(hm.guess('N'), "Nope -- A _ _ a");
    assert_eq!(hm.parts_left(), 4);
    assert_eq!(hm.guess('n'), "A n n a");
}

#[test]
fn any_character_may_be_guessed() {
    let mut hm = game_on("o'clock");
    assert_eq!(hm.guess('\''), "_ ' _ _ _ _ _");
    assert_eq!(hm.guess(' '), "Nope -- _ ' _ _ _ _ _");
    assert_eq!(hm.guess('_'), "Nope -- _ ' _ _ _ _ _");
    assert_eq!(hm.guess('7'), "Nope -- _ ' _ _ _ _ _");
    assert_eq!(hm.parts_left(), 2);
    assert_eq!(hm.guessed_count(), 4);
}

#[test]
fn letters_beyond_ascii_are_whole_letters() {
    let mut hm = game_on("été");
    assert_eq!(hm.show(), "_ _ _");
    assert_eq!(hm.guess('é'), "é _ é");
    assert_eq!(hm.guess('t'), "é t é");
    assert_eq!(hm.parts_left(), 5);
}

#[test]
fn a_letter_is_not_taken_for_another_with_the_same_low_byte() {
    // U+0161 ends in the byte 0x61, the code of 'a'.
    let mut hm = game_on("cat");
    assert_eq!(hm.guess('\u{161}'), "Nope -- _ _ _");
    assert!(hm.has_guessed('\u{161}'));
    assert!(!hm.has_guessed('a'));
    assert_eq!(hm.show(), "_ _ _");
    assert_eq!(hm.guessed_count(), 1);
}

#[test]
fn no_game_on_a_word_without_letters() {
    let words = vec!["cat".to_string(), String::new()];
    assert_eq!(Hangman::at(&words, 1).unwrap_err(), WordError::Empty);
    assert_eq!(Hangman::new(&vec![String::new()], 3).unwrap_err(), WordError::Empty);
}

#[test]
fn no_game_on_a_word_that_is_not_there() {
    let words = vec!["cat".to_string(), "dog".to_string()];
    assert_eq!(Hangman::at(&words, 2).unwrap_err(), WordError::Missing);
    assert_eq!(Hangman::at(&words, usize::MAX).unwrap_err(), WordError::Missing);
    assert_eq!(Hangman::at(&Vec::new(), 0).unwrap_err(), WordError::Missing);
    assert_eq!(Hangman::at(&words, 1).unwrap().word(), "dog");
}

#[test]
fn no_game_from_an_empty_list() {
    for seed in [0, 1, 99, u64::MAX] {
        assert_eq!(Hangman::new(&Vec::new(), seed).unwrap_err(), WordError::Missing);
    }
}
