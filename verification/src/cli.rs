//! The parameters of a game, as the command line and the terminal give them.
//!
//! Reading the command line and talking to the player are left to the
//! program. What is decided here is what each answer of the player means,
//! and whether the parameters can start a game.

use vstd::prelude::*;
use crate::alphabet::{is_ascii_uppercase, is_upper};
use crate::text::{first_char, is_single_byte, parse_decimal, parsed, single_byte, trim, trimmed};

verus! {

/// What the program was asked to do.
#[derive(Debug)]
pub struct ProgramParams {
    pub game_type: GameParams,
}

/// The kinds of game, each with its parameters.
#[derive(Debug)]
pub enum GameParams {
    CLI(BaseGameArgs),
}

/// The parameters of one game.
#[derive(Debug, Copy, Clone)]
pub struct BaseGameArgs {
    /// Ask for the parameters at the terminal.
    pub interactive: bool,
    /// How many guesses until the player loses the game.
    pub guess_max: u16,
    /// Length of the secret, and of every guess.
    pub length_answer: u8,
    /// The last letter of the alphabet, which starts at `'A'`.
    pub max_letter: char,
    /// How much to report while running.
    pub verbose: u8,
    /// The seed of the secret; without one the secret is drawn from entropy.
    pub seed_val: Option<u64>,
}

/// Why an answer at the terminal was turned down.
#[derive(Debug, Copy, Clone, PartialEq, Eq, Structural)]
pub enum Complaint {
    /// The answer is no number that the parameter can hold.
    NotANumber,
    /// The secret would be longer than `LONGEST_ANSWER`.
    TooLong,
    /// The letter is no ASCII uppercase letter.
    NotUppercase,
    /// The answer holds nothing but white space.
    NoLetter,
    /// The answer is no number that a seed can hold.
    NotASeed,
}

/// What becomes of a question once the player has answered it.
#[derive(Debug, Copy, Clone, PartialEq, Eq)]
pub enum Reply<T> {
    /// The question is settled with this value.
    Accept(T),
    /// The question is asked again, after the complaint if there is one.
    Ask(Option<Complaint>),
}

/// What the program does next with its parameters.
#[derive(Debug)]
pub enum Intake {
    /// Ask the player for the parameters, starting from these.
    Interview(BaseGameArgs),
    /// Play this game.
    Ready(GameParams),
    /// Give up: the alphabet does not end at an ASCII uppercase letter.
    Rejected,
}

/// The longest secret that the terminal accepts.
pub const LONGEST_ANSWER: u8 = 26;

/// An answer of one byte, the line's end alone, keeps the value there was.
pub open spec fn keeps_previous(response: Seq<char>) -> bool {
    single_byte(response)
}

/// What an answer to the question of the most guesses means.
pub open spec fn guess_max_reply(prev_max: u16, response: Seq<char>) -> Reply<u16> {
    if keeps_previous(response) {
        Reply::Accept(prev_max)
    } else {
        match parsed(trimmed(response), u16::MAX as nat) {
            Some(x) => if x > 0 {
                Reply::Accept(x as u16)
            } else {
                Reply::Ask(None)
            },
            None => Reply::Ask(Some(Complaint::NotANumber)),
        }
    }
}

/// What an answer to the question of the secret's length means.
pub open spec fn answer_length_reply(prev_len: u8, response: Seq<char>) -> Reply<u8> {
    if keeps_previous(response) {
        Reply::Accept(prev_len)
    } else {
        match parsed(trimmed(response), u8::MAX as nat) {
            Some(x) => if x <= LONGEST_ANSWER {
                Reply::Accept(x as u8)
            } else {
                Reply::Ask(Some(Complaint::TooLong))
            },
            None => Reply::Ask(Some(Complaint::NotANumber)),
        }
    }
}

/// What an answer to the question of the last letter means.
pub open spec fn max_letter_reply(prev_char: char, response: Seq<char>) -> Reply<char> {
    let answer = trimmed(response);
    if keeps_previous(response) {
        Reply::Accept(prev_char)
    } else if answer.len() == 0 {
        Reply::Ask(Some(Complaint::NoLetter))
    } else if is_upper(answer[0]) {
        Reply::Accept(answer[0])
    } else {
        Reply::Ask(Some(Complaint::NotUppercase))
    }
}

/// What an answer to the question of the seed means.
pub open spec fn seed_val_reply(prev_seed: Option<u64>, response: Seq<char>) -> Reply<
    Option<u64>,
> {
    if keeps_previous(response) {
        Reply::Accept(prev_seed)
    } else {
        match parsed(trimmed(response), u64::MAX as nat) {
            Some(x) => Reply::Accept(Some(x as u64)),
            None => Reply::Ask(Some(Complaint::NotASeed)),
        }
    }
}

impl BaseGameArgs {
    /// The alphabet ends at an ASCII uppercase letter.
    pub open spec fn valid(&self) -> bool {
        is_upper(self.max_letter)
    }

    /// These parameters once the player has settled the four questions.
    pub open spec fn interviewed(
        self,
        guess_max: u16,
        length_answer: u8,
        max_letter: char,
        seed_val: Option<u64>,
    ) -> BaseGameArgs {
        BaseGameArgs {
            interactive: false,
            guess_max,
            length_answer,
            max_letter,
            verbose: self.verbose,
            seed_val,
        }
    }

    /// The last letter of the alphabet as a byte.
    pub fn get_max_letter(&self) -> (max: u8)
        requires
            (self.max_letter as u32) < 256,
        ensures
            max as char == self.max_letter,
    {
        self.max_letter as u8
    }

    /// Puts the four values that the player settled on into these parameters,
    /// and marks them as no longer to be asked for.
    pub fn get_interactive_args(
        self,
        guess_max: u16,
        length_answer: u8,
        max_letter: char,
        seed_val: Option<u64>,
    ) -> (args: Self)
        ensures
            args == self.interviewed(guess_max, length_answer, max_letter, seed_val),
    {
        Self {
            interactive: false,
            guess_max,
            length_answer,
            max_letter,
            verbose: self.verbose,
            seed_val,
        }
    }

    /// Judges one answer to the question of the most guesses.
    pub fn interact_guess_max(prev_max: u16, response: &str) -> (reply: Reply<u16>)
        ensures
            reply == guess_max_reply(prev_max, response@),
    {
        if is_single_byte(response) {
            return Reply::Accept(prev_max);
        }
        match parse_decimal(trim(response), u16::MAX as u64) {
            Some(x) => {
                if x > 0 {
                    Reply::Accept(x as u16)
                } else {
                    Reply::Ask(None)
                }
            },
            None => Reply::Ask(Some(Complaint::NotANumber)),
        }
    }

    /// Judges one answer to the question of the secret's length.
    pub fn interact_answer_length(prev_len: u8, response: &str) -> (reply: Reply<u8>)
        ensures
            reply == answer_length_reply(prev_len, response@),
    {
        if is_single_byte(response) {
            return Reply::Accept(prev_len);
        }
        match parse_decimal(trim(response), u8::MAX as u64) {
            Some(x) => {
                if x <= LONGEST_ANSWER as u64 {
                    Reply::Accept(x as u8)
                } else {
                    Reply::Ask(Some(Complaint::TooLong))
                }
            },
            None => Reply::Ask(Some(Complaint::NotANumber)),
        }
    }

    /// Judges one answer to the question of the last letter.
    pub fn interact_max_letter(prev_char: char, response: &str) -> (reply: Reply<char>)
        ensures
            reply == max_letter_reply(prev_char, response@),
    {
        if is_single_byte(response) {
            return Reply::Accept(prev_char);
        }
        match first_char(trim(response)) {
            Some(c) => {
                if is_ascii_uppercase(c) {
                    Reply::Accept(c)
                } else {
                    Reply::Ask(Some(Complaint::NotUppercase))
                }
            },
            None => Reply::Ask(Some(Complaint::NoLetter)),
        }
    }

    /// Judges one answer to the question of the seed.
    pub fn interact_seed_val(prev_seed: Option<u64>, response: &str) -> (reply: Reply<Option<u64>>)
        ensures
            reply == seed_val_reply(prev_seed, response@),
    {
        if is_single_byte(response) {
            return Reply::Accept(prev_seed);
        }
        match parse_decimal(trim(response), u64::MAX) {
            Some(x) => Reply::Accept(Some(x)),
            None => Reply::Ask(Some(Complaint::NotASeed)),
        }
    }
}

/// What the program does next with `params`: it asks the player where they
/// want to be asked, and else starts the game if the alphabet is in order.
pub open spec fn intake_of(params: ProgramParams) -> Intake {
    match params.game_type {
        GameParams::CLI(args) => if args.interactive {
            Intake::Interview(args)
        } else if args.valid() {
            Intake::Ready(GameParams::CLI(args))
        } else {
            Intake::Rejected
        },
    }
}

/// Decides what the program does next with the parameters it has.
pub fn get_args(params: ProgramParams) -> (next: Intake)
    ensures
        next == intake_of(params),
{
    match params.game_type {
        GameParams::CLI(args) => {
            if args.interactive {
                Intake::Interview(args)
            } else if is_ascii_uppercase(args.max_letter) {
                Intake::Ready(GameParams::CLI(args))
            } else {
                Intake::Rejected
            }
        },
    }
}

} // verus!
