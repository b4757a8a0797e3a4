//! A single-player code-breaking game in the Bagels family.
//!
//! The engine keeps a secret word over the letters `'A'..=max_letter`, scores
//! each guess against it and counts the turns. Every function carries a
//! contract over the mathematical model of the game, and the contracts are
//! proved.
//!
//! - `cli`: the parameters of a game, and what the player's answers to the
//!   questions about them mean;
//! - `game`: the state of a game, its scoring and its turns;
//! - `score`: what a guess is worth against a secret;
//! - `secret`: how drawn bytes spell a secret;
//! - `source`: the draws themselves, made by the `rand` crate;
//! - `pairs`: the pairings of two words, made by the `itertools` crate;
//! - `alphabet` and `text`: letters, white space and decimal numbers.

pub mod alphabet;
pub mod cli;
pub mod game;
pub mod pairs;
pub mod score;
pub mod secret;
pub mod source;
pub mod text;
