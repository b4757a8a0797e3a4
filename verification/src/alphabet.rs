//! The letters a secret is written with.

use vstd::prelude::*;

verus! {

/// The first letter of every alphabet, as a byte.
pub const ASCII_A: u8 = 65;

/// `c` is one of `'A'..='Z'`.
pub open spec fn is_upper(c: char) -> bool {
    'A' <= c && c <= 'Z'
}

/// The byte `b` lies in the alphabet that ends at the byte `max`.
pub open spec fn in_alphabet(b: u8, max: u8) -> bool {
    ASCII_A <= b && b <= max
}

/// The letter `c` lies in the alphabet that ends at the letter `max`.
pub open spec fn is_letter(c: char, max: char) -> bool {
    'A' <= c && c <= max
}

/// Tells whether `c` is an ASCII uppercase letter.
pub fn is_ascii_uppercase(c: char) -> (upper: bool)
    ensures
        upper == is_upper(c),
{
    'A' <= c && c <= 'Z'
}

/// Tells whether a drawn byte belongs to the alphabet `'A'..=max`.
pub fn accepts(b: u8, max: u8) -> (kept: bool)
    ensures
        kept == in_alphabet(b, max),
{
    ASCII_A <= b && b <= max
}

} // verus!
