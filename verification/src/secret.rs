//! Choosing a secret from a run of drawn bytes.
//!
//! Bytes outside the alphabet are passed over; the first `length` bytes that
//! remain, in the order in which they were drawn, spell the secret. A run
//! that holds too few of them is filled up with `'A'`.

use vstd::prelude::*;
use crate::alphabet::{accepts, in_alphabet, is_letter, ASCII_A};
use crate::source::{entropy_draws, is_alphanumeric, seeded_draws, seeded_stream};

verus! {

/// How many bytes are drawn at first.
pub const FIRST_DRAWS: usize = 64;

/// The most bytes that are ever drawn for one secret.
pub const MOST_DRAWS: usize = 0x10_0000;

/// The test that a drawn byte lies in the alphabet that ends at `max`.
pub open spec fn alphabet_test(max: u8) -> spec_fn(u8) -> bool {
    |b: u8| in_alphabet(b, max)
}

/// The drawn bytes that lie in the alphabet, in the order of the draws.
pub open spec fn accepted(draws: Seq<u8>, max: u8) -> Seq<u8> {
    draws.filter(alphabet_test(max))
}

/// The bytes read as characters.
pub open spec fn letters(bytes: Seq<u8>) -> Seq<char> {
    bytes.map_values(|b: u8| b as char)
}

/// The first `length` accepted bytes of `draws`, or all of them where there
/// are fewer.
pub open spec fn kept(draws: Seq<u8>, length: nat, max: u8) -> Seq<u8> {
    let all = accepted(draws, max);
    if all.len() >= length {
        all.take(length as int)
    } else {
        all
    }
}

/// The secret of `length` letters that `draws` spell.
pub open spec fn secret_of(draws: Seq<u8>, length: nat, max: u8) -> Seq<char> {
    let first = kept(draws, length, max);
    letters(first) + Seq::new((length - first.len()) as nat, |k: int| 'A')
}

/// The secret that a seed stands for.
pub open spec fn seeded_secret(seed: u64, length: nat, max: u8) -> Seq<char> {
    secret_of(seeded_stream(seed, MOST_DRAWS as nat), length, max)
}

/// A secret has the length that was asked for, and stays in its alphabet.
pub proof fn lemma_secret_of_shape(draws: Seq<u8>, length: nat, max: u8)
    requires
        ASCII_A <= max,
    ensures
        secret_of(draws, length, max).len() == length,
        forall|i: int|
            0 <= i < length ==> is_letter(
                #[trigger] secret_of(draws, length, max)[i],
                max as char,
            ),
{
    let pred = alphabet_test(max);
    let first = kept(draws, length, max);
    let secret = secret_of(draws, length, max);
    broadcast use vstd::seq_lib::group_filter_ensures;
    assert forall|i: int| 0 <= i < length implies is_letter(#[trigger] secret[i], max as char) by {
        if i < first.len() {
            assert(first[i] == accepted(draws, max)[i]);
            assert(pred(accepted(draws, max)[i]));
            assert(secret[i] == first[i] as char);
        } else {
            assert(secret[i] == 'A');
        }
    }
}

/// Once a run holds enough accepted bytes, drawing on changes nothing.
pub proof fn lemma_secret_of_prefix(short: Seq<u8>, long: Seq<u8>, length: nat, max: u8)
    requires
        short.is_prefix_of(long),
        accepted(short, max).len() >= length,
    ensures
        secret_of(short, length, max) == secret_of(long, length, max),
{
    let pred = alphabet_test(max);
    let rest = long.skip(short.len() as int);
    assert(long =~= short + rest);
    Seq::filter_distributes_over_add(short, rest, pred);
    assert(accepted(long, max) == accepted(short, max) + accepted(rest, max));
    assert(kept(short, length, max) =~= kept(long, length, max));
}

/// The accepted bytes of `draws`, up to `length` of them.
pub fn keep(draws: &Vec<u8>, length: u8, max: u8) -> (first: Vec<u8>)
    ensures
        first@ == kept(draws@, length as nat, max),
{
    let ghost pred = alphabet_test(max);
    let mut first: Vec<u8> = Vec::new();
    let mut i: usize = 0;
    assert(draws@.take(0) =~= Seq::<u8>::empty());
    while i < draws.len() && first.len() < length as usize
        invariant
            i <= draws@.len(),
            pred == alphabet_test(max),
            first@ == accepted(draws@.take(i as int), max),
            first@.len() <= length,
        decreases draws@.len() - i,
    {
        let b = draws[i];
        proof {
            assert(draws@.take(i + 1) =~= draws@.take(i as int).push(b));
            Seq::lemma_filter_push(draws@.take(i as int), b, pred);
        }
        if accepts(b, max) {
            first.push(b);
        }
        i = i + 1;
    }
    proof {
        let seen = draws@.take(i as int);
        let rest = draws@.skip(i as int);
        assert(draws@ =~= seen + rest);
        Seq::filter_distributes_over_add(seen, rest, pred);
        if i == draws@.len() {
            assert(rest =~= Seq::<u8>::empty());
            assert(accepted(draws@, max) =~= first@);
            if first@.len() == length {
                assert(first@.take(length as int) =~= first@);
            }
        } else {
            assert(accepted(draws@, max).take(length as int) =~= first@);
        }
    }
    first
}

/// Reads `first` as letters and fills them up with `'A'` to `length`.
pub fn spell(first: &Vec<u8>, length: u8) -> (secret: String)
    requires
        first@.len() <= length,
    ensures
        secret@ == letters(first@) + Seq::new((length - first@.len()) as nat, |k: int| 'A'),
{
    let mut secret = String::new();
    let mut i: usize = 0;
    while i < first.len()
        invariant
            i <= first@.len(),
            secret@ == letters(first@.take(i as int)),
        decreases first@.len() - i,
    {
        proof {
            assert(first@.take(i + 1) =~= first@.take(i as int).push(first@[i as int]));
        }
        secret.push(first[i] as char);
        i = i + 1;
    }
    assert(first@.take(i as int) =~= first@);
    let ghost spelled = secret@;
    let mut j: usize = first.len();
    while j < length as usize
        invariant
            first@.len() <= j <= length,
            secret@ == spelled + Seq::new((j - first@.len()) as nat, |k: int| 'A'),
        decreases length - j,
    {
        secret.push('A');
        j = j + 1;
    }
    secret
}

/// Spells the secret of `length` letters out of `draws`.
pub fn pick_secret(draws: &Vec<u8>, length: u8, max: u8) -> (secret: String)
    ensures
        secret@ == secret_of(draws@, length as nat, max),
{
    let first = keep(draws, length, max);
    spell(&first, length)
}

/// Draws `count` bytes: from the seed where there is one, else from entropy.
pub fn draw(seed: Option<u64>, count: usize) -> (draws: Vec<u8>)
    requires
        count <= isize::MAX,
    ensures
        draws@.len() == count,
        forall|i: int| 0 <= i < count ==> is_alphanumeric(#[trigger] draws@[i]),
        seed matches Some(s) ==> draws@ == seeded_stream(s, count as nat),
{
    match seed {
        Some(s) => seeded_draws(s, count),
        None => entropy_draws(count),
    }
}

/// Draws until the run spells a whole secret, or `MOST_DRAWS` bytes are out.
/// An empty secret takes no draw at all.
pub fn draw_secret(seed: Option<u64>, length: u8, max: u8) -> (secret: String)
    requires
        ASCII_A <= max,
    ensures
        secret@.len() == length,
        forall|i: int| 0 <= i < length ==> is_letter(#[trigger] secret@[i], max as char),
        seed matches Some(s) ==> secret@ == seeded_secret(s, length as nat, max),
{
    if length == 0 {
        assert(letters(Seq::<u8>::empty()) =~= Seq::<char>::empty());
        return String::new();
    }
    let mut count: usize = FIRST_DRAWS;
    let mut draws = draw(seed, count);
    let mut first = keep(&draws, length, max);
    while count < MOST_DRAWS && first.len() < length as usize
        invariant
            1 <= count <= MOST_DRAWS,
            draws@.len() == count,
            first@ == kept(draws@, length as nat, max),
            seed matches Some(s) ==> draws@ == seeded_stream(s, count as nat),
        decreases MOST_DRAWS - count,
    {
        count =
        if count <= MOST_DRAWS / 2 {
            count * 2
        } else {
            MOST_DRAWS
        };
        draws = draw(seed, count);
        first = keep(&draws, length, max);
    }
    let secret = spell(&first, length);
    proof {
        lemma_secret_of_shape(draws@, length as nat, max);
        if let Some(s) = seed {
            if count < MOST_DRAWS {
                assert(seeded_stream(s, count as nat).is_prefix_of(
                    seeded_stream(s, MOST_DRAWS as nat),
                ));
                lemma_secret_of_prefix(
                    seeded_stream(s, count as nat),
                    seeded_stream(s, MOST_DRAWS as nat),
                    length as nat,
                    max,
                );
            }
        }
    }
    secret
}

} // verus!
