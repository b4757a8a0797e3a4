//! The state of one game: its secret, its turns and its scoring.

use vstd::prelude::*;
use vstd::set_lib::{lemma_int_range, lemma_subset_equality, set_int_range};
use crate::alphabet::is_letter;
use crate::cli::BaseGameArgs;
use crate::score::{
    exact_at, exact_count, exact_indices, lemma_counts_bounded, lemma_token_counts, occurrences,
    present_count, reads, score_tokens, tally_chars, token_views, CORRECT_STRING,
};
use crate::secret::{draw_secret, pick_secret, secret_of, seeded_secret};
use crate::text::{to_chars, trim, trimmed};

verus! {

/// One game in progress.
#[derive(Debug, Clone)]
pub struct GameState {
    /// How many guesses the player may make.
    pub max_guesses: u16,
    /// How many guesses have been scored.
    pub curr_guesses: u16,
    /// Length of the secret, and of every guess.
    pub guess_length: u8,
    /// The last letter of the alphabet.
    pub letter_max: char,
    answer: String,
}

/// What a game is to its contracts: the four counters and the secret.
pub ghost struct GameModel {
    pub max_guesses: nat,
    pub curr_guesses: nat,
    pub guess_length: nat,
    pub letter_max: char,
    pub secret: Seq<char>,
}

impl View for GameState {
    type V = GameModel;

    closed spec fn view(&self) -> GameModel {
        GameModel {
            max_guesses: self.max_guesses as nat,
            curr_guesses: self.curr_guesses as nat,
            guess_length: self.guess_length as nat,
            letter_max: self.letter_max,
            secret: self.answer@,
        }
    }
}

impl GameModel {
    /// The secret has the length of a guess and stays in the alphabet.
    pub open spec fn wf(self) -> bool {
        &&& self.secret.len() == self.guess_length
        &&& forall|i: int|
            0 <= i < self.secret.len() ==> is_letter(#[trigger] self.secret[i], self.letter_max)
    }

    /// No more guesses have been scored than the game allows.
    pub open spec fn within_turns(self) -> bool {
        self.curr_guesses <= self.max_guesses
    }

    /// The player may guess once more.
    pub open spec fn turn_left(self) -> bool {
        self.curr_guesses < self.max_guesses
    }

    /// `tokens` report a guess that found the secret: they hold as many
    /// exact tokens as the secret has letters, and no token more.
    pub open spec fn won_by(self, tokens: Seq<Seq<char>>) -> bool {
        &&& tokens.len() <= self.guess_length
        &&& occurrences(tokens, CORRECT_STRING@) == self.guess_length
    }

    /// `guess` is as long as the secret and holds letters of the alphabet
    /// only.
    pub open spec fn conforms(self, guess: Seq<char>) -> bool {
        &&& guess.len() == self.guess_length
        &&& forall|i: int|
            0 <= i < guess.len() ==> is_letter(#[trigger] guess[i], self.letter_max)
    }

    /// This game after one more guess has been scored.
    pub open spec fn after_guess(self) -> GameModel {
        GameModel { curr_guesses: self.curr_guesses + 1, ..self }
    }

    /// A game that has just begun under `args`, with `secret` to find.
    pub open spec fn begun(args: BaseGameArgs, secret: Seq<char>) -> GameModel {
        GameModel {
            max_guesses: args.guess_max as nat,
            curr_guesses: 0,
            guess_length: args.length_answer as nat,
            letter_max: args.max_letter,
            secret,
        }
    }

    /// This game has just begun under `args`: no guess is scored, the secret
    /// is well formed, and where `args` holds a seed, it is the secret that
    /// the seed stands for.
    pub open spec fn dealt(self, args: BaseGameArgs) -> bool {
        &&& self == GameModel::begun(args, self.secret)
        &&& self.wf()
        &&& args.seed_val matches Some(seed) ==> self.secret == seeded_secret(
            seed,
            args.length_answer as nat,
            args.max_letter as u8,
        )
    }
}

impl Default for GameState {
    /// A game of ten guesses at three letters up to `'J'`, with no secret yet.
    fn default() -> (game: Self)
        ensures
            game@ == (GameModel {
                max_guesses: 10,
                curr_guesses: 0,
                guess_length: 3,
                letter_max: 'J',
                secret: Seq::empty(),
            }),
    {
        Self {
            max_guesses: 10,
            curr_guesses: 0,
            guess_length: 3,
            letter_max: 'J',
            answer: String::new(),
        }
    }
}

impl GameState {
    /// Begins a game under `args` whose secret is spelled by `draws`.
    pub fn from_draws(args: &BaseGameArgs, draws: &Vec<u8>) -> (game: Self)
        requires
            args.valid(),
        ensures
            game@ == GameModel::begun(
                *args,
                secret_of(draws@, args.length_answer as nat, args.max_letter as u8),
            ),
            game@.wf(),
    {
        let max = args.get_max_letter();
        proof {
            crate::secret::lemma_secret_of_shape(draws@, args.length_answer as nat, max);
        }
        Self {
            max_guesses: args.guess_max,
            guess_length: args.length_answer,
            letter_max: args.max_letter,
            answer: pick_secret(draws, args.length_answer, max),
            ..Default::default()
        }
    }

    /// Begins a game under `args` with a freshly drawn secret.
    pub fn new_game(args: &BaseGameArgs) -> (game: Self)
        requires
            args.valid(),
        ensures
            game@.dealt(*args),
    {
        let max = args.get_max_letter();
        Self {
            max_guesses: args.guess_max,
            guess_length: args.length_answer,
            letter_max: args.max_letter,
            answer: draw_secret(args.seed_val, args.length_answer, max),
            ..Default::default()
        }
    }

    /// How many guesses the player may make.
    pub fn max_guesses(&self) -> (n: u16)
        ensures
            n == self@.max_guesses,
    {
        self.max_guesses
    }

    /// How many guesses have been scored.
    pub fn curr_guesses(&self) -> (n: u16)
        ensures
            n == self@.curr_guesses,
    {
        self.curr_guesses
    }

    /// Length of the secret, and of every guess.
    pub fn guess_length(&self) -> (n: u8)
        ensures
            n == self@.guess_length,
    {
        self.guess_length
    }

    /// The last letter of the alphabet.
    pub fn letter_max(&self) -> (max: char)
        ensures
            max == self@.letter_max,
    {
        self.letter_max
    }

    /// Tells whether `guess` is as long as the secret and holds letters of
    /// the alphabet only.
    pub fn conforms(&self, guess: &str) -> (fit: bool)
        ensures
            fit == self@.conforms(guess@),
    {
        let chars = to_chars(guess);
        if chars.len() != self.guess_length as usize {
            return false;
        }
        let mut i: usize = 0;
        while i < chars.len()
            invariant
                i <= chars@.len(),
                chars@ == guess@,
                forall|k: int| 0 <= k < i ==> is_letter(#[trigger] guess@[k], self@.letter_max),
            decreases chars@.len() - i,
        {
            let c = chars[i];
            if !('A' <= c && c <= self.letter_max) {
                return false;
            }
            i = i + 1;
        }
        true
    }

    /// Scores `guess` against the secret and counts the turn.
    pub fn compare_answer(&mut self, guess: &str) -> (result: Vec<String>)
        requires
            old(self)@.curr_guesses < u16::MAX,
        ensures
            final(self)@ == old(self)@.after_guess(),
            token_views(result@) == score_tokens(old(self)@.secret, guess@),
    {
        self.curr_guesses = self.curr_guesses + 1;
        let secret = to_chars(self.answer.as_str());
        let guess = to_chars(guess);
        tally_chars(&secret, &guess).tokens()
    }

    /// The secret, for the end of a game that the player lost.
    pub fn get_answer(&self) -> (answer: &str)
        ensures
            answer@ == self@.secret,
    {
        self.answer.as_str()
    }

    /// Tells whether the player may make another guess.
    pub fn available_turn(&self) -> (open: bool)
        ensures
            open == self@.turn_left(),
    {
        self.curr_guesses < self.max_guesses
    }

    /// Tells whether `result` reports a guess that found the secret: it holds
    /// as many exact tokens as the secret has letters, and no token more.
    pub fn is_guess_correct(&self, result: &[String]) -> (correct: bool)
        ensures
            correct == self@.won_by(token_views(result@)),
    {
        if result.len() > self.guess_length as usize {
            return false;
        }
        let token = CORRECT_STRING.to_owned();
        let mut count: usize = 0;
        let mut i: usize = 0;
        assert(token_views(result@.take(0)) =~= Seq::<Seq<char>>::empty());
        while i < result.len()
            invariant
                i <= result@.len(),
                token@ == CORRECT_STRING@,
                count == occurrences(token_views(result@.take(i as int)), CORRECT_STRING@),
                count <= i,
            decreases result@.len() - i,
        {
            proof {
                let seen = token_views(result@.take(i as int));
                assert(token_views(result@.take(i + 1)) =~= seen.push(result@[i as int]@));
                Seq::lemma_filter_push(seen, result@[i as int]@, reads(CORRECT_STRING@));
            }
            if result[i] == token {
                count = count + 1;
            }
            i = i + 1;
        }
        assert(result@.take(i as int) =~= result@);
        count == self.guess_length as usize
    }
}

/// What becomes of a line that the player typed as a guess.
#[derive(Debug, Clone, PartialEq, Eq)]
pub enum GuessReply {
    /// The line, without the white space around it, is a guess of the
    /// secret's length in the game's alphabet.
    Accept(String),
    /// The player is asked again: after a reminder of the alphabet where
    /// `reminder` is set, and told that the guess was too long or too short.
    Ask { reminder: bool, too_long: bool },
}

/// The test that a character lies in the alphabet that ends at `max`.
pub open spec fn letter_test(max: char) -> spec_fn(char) -> bool {
    |c: char| is_letter(c, max)
}

/// How many characters of `line` lie in the alphabet that ends at `max`.
pub open spec fn valid_chars(line: Seq<char>, max: char) -> nat {
    line.filter(letter_test(max)).len()
}

/// Judges a line of `read` bytes that the player typed as a guess. The line
/// is taken as the guess, without the white space around it, when that is
/// exactly as long as the secret and holds letters of the alphabet only.
/// Any other line is turned down: with a reminder of the alphabet when the
/// bytes read, less one for the line's end, outnumber the letters of the
/// alphabet in the line, and as too long when the line holds more of those
/// letters than the secret.
pub fn get_cli_guess(game: &GameState, line: &str, read: usize) -> (reply: GuessReply)
    requires
        valid_chars(line@, game@.letter_max) != game@.guess_length ==> read >= 1,
        (game@.letter_max as u32) < 256,
        forall|i: int| 0 <= i < line@.len() ==> (#[trigger] line@[i] as u32) < 256,
    ensures
        match reply {
            GuessReply::Accept(guess) => {
                &&& guess@ == trimmed(line@)
                &&& guess@.len() == game@.guess_length
                &&& forall|i: int|
                    0 <= i < guess@.len() ==> is_letter(#[trigger] guess@[i], game@.letter_max)
            },
            GuessReply::Ask { reminder, too_long } => {
                &&& !game@.conforms(trimmed(line@))
                &&& reminder == (read - 1 > valid_chars(line@, game@.letter_max))
                &&& too_long == (valid_chars(line@, game@.letter_max) > game@.guess_length)
            },
        },
{
    let guess = trim(line);
    if game.conforms(guess) {
        return GuessReply::Accept(guess.to_owned());
    }
    let chars = to_chars(line);
    let max = game.letter_max;
    let mut valid: usize = 0;
    let mut i: usize = 0;
    assert(line@.take(0) =~= Seq::<char>::empty());
    while i < chars.len()
        invariant
            i <= chars@.len(),
            chars@ == line@,
            valid == valid_chars(line@.take(i as int), max),
            valid <= i,
        decreases chars@.len() - i,
    {
        let c = chars[i];
        proof {
            assert(line@.take(i + 1) =~= line@.take(i as int).push(c));
            Seq::lemma_filter_push(line@.take(i as int), c, letter_test(max));
        }
        if 'A' <= c && c <= max {
            valid = valid + 1;
        }
        i = i + 1;
    }
    assert(line@.take(i as int) =~= line@);
    GuessReply::Ask {
        reminder: read >= 1 && read - 1 > valid,
        too_long: valid > game.guess_length as usize,
    }
}

/// The score of a guess wins just when the secret is not empty and the
/// guess begins with it.
pub proof fn law_win_means_found(game: GameModel, guess: Seq<char>)
    requires
        game.secret.len() == game.guess_length,
    ensures
        game.won_by(score_tokens(game.secret, guess)) <==> game.secret.len() > 0
            && game.secret.is_prefix_of(guess),
{
    let secret = game.secret;
    let n = secret.len() as int;
    let exact = exact_indices(secret, guess);
    let all = set_int_range(0, n);
    lemma_counts_bounded(secret, guess);
    lemma_token_counts(exact_count(secret, guess), present_count(secret, guess));
    lemma_int_range(0, n);
    if n > 0 && secret.is_prefix_of(guess) {
        assert(exact =~= all);
    }
    if n > 0 && exact.len() == n {
        lemma_subset_equality(exact, all);
        assert(exact.contains(n - 1));
        assert forall|i: int| 0 <= i < n implies secret[i] == guess.subrange(0, n)[i] by {
            assert(exact.contains(i));
        }
        assert(secret =~= guess.subrange(0, n));
    }
}

/// Two games that have just begun under the same seeded parameters are the
/// same game: the seed settles the secret.
pub proof fn law_seed_settles_secret(args: BaseGameArgs, one: GameModel, other: GameModel)
    requires
        args.seed_val is Some,
        one.dealt(args),
        other.dealt(args),
    ensures
        one.secret == other.secret,
        one == other,
{
}

/// Scoring a guess changes nothing but the count of guesses, and a game
/// that had a turn left stays within its turns. A game that has just begun
/// is within its turns.
pub proof fn law_turns_stay_within(args: BaseGameArgs, game: GameModel)
    ensures
        game.dealt(args) ==> game.within_turns(),
        game.turn_left() ==> game.after_guess().within_turns(),
        game.after_guess().curr_guesses == game.curr_guesses + 1,
        game.after_guess().secret == game.secret,
        game.wf() ==> game.after_guess().wf(),
{
}

} // verus!
