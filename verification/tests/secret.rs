use mastermind::alphabet::{accepts, is_ascii_uppercase, ASCII_A};
use mastermind::cli::BaseGameArgs;
use mastermind::game::GameState;
use mastermind::secret::{draw, draw_secret, keep, pick_secret, spell, FIRST_DRAWS, MOST_DRAWS};
use rand::distributions::{Alphanumeric, Distribution};
use rand::rngs::StdRng;
use rand::SeedableRng;

fn seeded(seed: u64, length_answer: u8, max_letter: char) -> BaseGameArgs {
    BaseGameArgs {
        interactive: false,
        guess_max: 10,
        length_answer,
        max_letter,
        verbose: 0,
        seed_val: Some(seed),
    }
}

/// The secret as rejection sampling spells it, one draw at a time.
fn sampled(seed: u64, length: usize, max: u8) -> String {
    Alphanumeric
        .sample_iter(StdRng::seed_from_u64(seed))
        .filter(|c| (b'A'..=max).contains(c))
        .map(char::from)
        .take(length)
        .collect()
}

#[test]
fn a_new_game_has_a_secret_of_the_right_length_in_the_alphabet() {
    for max_letter in ['A', 'B', 'J', 'Q', 'Z'] {
        for length_answer in [0u8, 1, 3, 8, 26, 255] {
            for seed_val in [None, Some(0u64), Some(7), Some(u64::MAX)] {
                let args = BaseGameArgs {
                    interactive: false,
                    guess_max: 12,
                    length_answer,
                    max_letter,
                    verbose: 0,
                    seed_val,
                };
                let game = GameState::new_game(&args);
                assert_eq!(game.get_answer().chars().count(), length_answer as usize);
                assert!(game.get_answer().chars().all(|c| 'A' <= c && c <= max_letter));
                assert_eq!(game.max_guesses, 12);
                assert_eq!(game.curr_guesses, 0);
                assert_eq!(game.guess_length, length_answer);
                assert_eq!(game.letter_max, max_letter);
            }
        }
    }
}

#[test]
fn the_same_seed_gives_the_same_secret() {
    for seed in [0u64, 1, 42, 1 << 40, u64::MAX] {
        let one = GameState::new_game(&seeded(seed, 8, 'J'));
        let other = GameState::new_game(&seeded(seed, 8, 'J'));
        assert_eq!(one.get_answer(), other.get_answer());
    }
}

#[test]
fn a_seeded_secret_is_what_rejection_sampling_spells() {
    for seed in [0u64, 1, 42, 2024, u64::MAX] {
        for (length, max_letter) in [(3u8, 'J'), (8, 'Z'), (26, 'C'), (40, 'A'), (255, 'A')] {
            let game = GameState::new_game(&seeded(seed, length, max_letter));
            assert_eq!(game.get_answer(), sampled(seed, length as usize, max_letter as u8));
        }
    }
}

#[test]
fn different_seeds_give_different_secrets() {
    let one = GameState::new_game(&seeded(1, 26, 'Z'));
    let other = GameState::new_game(&seeded(2, 26, 'Z'));
    assert_ne!(one.get_answer(), other.get_answer());
}

#[test]
fn a_longer_seeded_secret_begins_with_the_shorter_one() {
    let short = GameState::new_game(&seeded(5, 4, 'J'));
    let long = GameState::new_game(&seeded(5, 9, 'J'));
    assert!(long.get_answer().starts_with(short.get_answer()));
}

#[test]
fn seeded_draws_are_the_generator_s_stream() {
    let expected: Vec<u8> =
        Alphanumeric.sample_iter(StdRng::seed_from_u64(99)).take(300).collect();
    assert_eq!(draw(Some(99), 300), expected);
    assert_eq!(draw(Some(99), 10), expected[..10].to_vec());
    assert_eq!(draw(Some(99), 0), Vec::<u8>::new());
    assert_ne!(draw(Some(98), 300), expected);
}

#[test]
fn entropy_draws_are_letters_and_digits() {
    let draws = draw(None, 500);
    assert_eq!(draws.len(), 500);
    assert!(draws.iter().all(|b| b.is_ascii_alphanumeric()));
    assert_ne!(draw(None, 64), draw(None, 64));
}

#[test]
fn the_bounds_on_draws_are_as_documented() {
    assert_eq!(FIRST_DRAWS, 64);
    assert_eq!(MOST_DRAWS, 1 << 20);
    assert_eq!(draw(Some(3), MOST_DRAWS).len(), MOST_DRAWS);
}

#[test]
fn keep_passes_over_what_is_outside_the_alphabet() {
    let draws = b"aBzC0D9EFG".to_vec();
    assert_eq!(keep(&draws, 3, b'J'), b"BCD".to_vec());
    assert_eq!(keep(&draws, 6, b'J'), b"BCDEFG".to_vec());
    assert_eq!(keep(&draws, 9, b'J'), b"BCDEFG".to_vec());
    assert_eq!(keep(&draws, 9, b'D'), b"BCD".to_vec());
    assert_eq!(keep(&draws, 0, b'J'), Vec::<u8>::new());
    assert_eq!(keep(&Vec::new(), 4, b'J'), Vec::<u8>::new());
}

#[test]
fn spell_fills_up_with_the_first_letter() {
    assert_eq!(spell(&b"BCD".to_vec(), 3), "BCD");
    assert_eq!(spell(&b"BCD".to_vec(), 5), "BCDAA");
    assert_eq!(spell(&Vec::new(), 2), "AA");
    assert_eq!(spell(&Vec::new(), 0), "");
}

#[test]
fn pick_secret_takes_the_first_accepted_draws_in_order() {
    let draws = b"xJyIzHGFEDCBA".to_vec();
    assert_eq!(pick_secret(&draws, 4, b'J'), "JIHG");
    assert_eq!(pick_secret(&draws, 4, b'H'), "HGFE");
    assert_eq!(pick_secret(&draws, 0, b'J'), "");
    assert_eq!(pick_secret(&draws, 12, b'J'), "JIHGFEDCBAAA");
    assert_eq!(pick_secret(&b"0123".to_vec(), 3, b'Z'), "AAA");
}

#[test]
fn a_game_from_draws_starts_at_no_guesses() {
    let args = seeded(0, 3, 'C');
    let game = GameState::from_draws(&args, &b"DACDBzC".to_vec());
    assert_eq!(game.get_answer(), "ACB");
    assert_eq!(game.max_guesses, 10);
    assert_eq!(game.curr_guesses, 0);
    assert_eq!(game.guess_length, 3);
    assert_eq!(game.letter_max, 'C');
}

#[test]
fn draw_secret_agrees_with_a_new_game() {
    let game = GameState::new_game(&seeded(11, 6, 'M'));
    assert_eq!(draw_secret(Some(11), 6, b'M'), game.get_answer());
    assert_eq!(draw_secret(Some(11), 6, b'M'), sampled(11, 6, b'M'));
    let open = draw_secret(None, 6, b'M');
    assert_eq!(open.len(), 6);
    assert!(open.bytes().all(|b| accepts(b, b'M')));
}

#[test]
fn the_alphabet_starts_at_a() {
    assert_eq!(ASCII_A, b'A');
    assert!(accepts(b'A', b'A'));
    assert!(accepts(b'C', b'J'));
    assert!(accepts(b'J', b'J'));
    assert!(!accepts(b'K', b'J'));
    assert!(!accepts(b'@', b'J'));
    assert!(!accepts(b'a', b'J'));
    assert!(!accepts(b'5', b'Z'));
}

#[test]
fn uppercase_is_a_to_z() {
    for c in '\0'..='\u{300}' {
        assert_eq!(is_ascii_uppercase(c), c.is_ascii_uppercase());
    }
}
