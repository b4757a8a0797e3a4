//! What a guess is worth against a secret.
//!
//! A position of the secret is *exact* when the guess holds the same
//! character at the same position. It is *present* when the guess holds its
//! character anywhere, and the position is not exact. Every position of the
//! secret is judged on its own: a letter that the secret repeats counts once
//! for each position that holds it.

use vstd::prelude::*;
use vstd::set_lib::*;
use crate::pairs::{cartesian_product, lemma_product_index, product_of};
use crate::text::to_chars;

verus! {

/// The token for a position that is exact.
pub const CORRECT_STRING: &'static str = "Fermi";

/// The token for a position that is present.
pub const ALMOST_STRING: &'static str = "Pico";

/// The token for a guess that shares no character with the secret.
pub const FAIL_STRING: &'static str = "Bagels";

/// Position `i` of the secret holds the character that the guess holds at `i`.
pub open spec fn exact_at(secret: Seq<char>, guess: Seq<char>, i: int) -> bool {
    &&& 0 <= i < secret.len()
    &&& i < guess.len()
    &&& secret[i] == guess[i]
}

/// Position `i` of the secret holds a character that occurs in the guess.
pub open spec fn paired_at(secret: Seq<char>, guess: Seq<char>, i: int) -> bool {
    &&& 0 <= i < secret.len()
    &&& guess.contains(secret[i])
}

/// Position `i` of the secret is paired with the guess, but not exact.
pub open spec fn present_at(secret: Seq<char>, guess: Seq<char>, i: int) -> bool {
    paired_at(secret, guess, i) && !exact_at(secret, guess, i)
}

/// The positions of the secret that are exact.
pub open spec fn exact_indices(secret: Seq<char>, guess: Seq<char>) -> Set<int> {
    Set::new(|i: int| exact_at(secret, guess, i))
}

/// The positions of the secret that are present.
pub open spec fn present_indices(secret: Seq<char>, guess: Seq<char>) -> Set<int> {
    Set::new(|i: int| present_at(secret, guess, i))
}

/// How many positions of the secret are exact.
pub open spec fn exact_count(secret: Seq<char>, guess: Seq<char>) -> nat {
    exact_indices(secret, guess).len()
}

/// How many positions of the secret are present.
pub open spec fn present_count(secret: Seq<char>, guess: Seq<char>) -> nat {
    present_indices(secret, guess).len()
}

/// The secret and the guess have no character in common.
pub open spec fn nothing_shared(secret: Seq<char>, guess: Seq<char>) -> bool {
    forall|i: int, j: int|
        0 <= i < secret.len() && 0 <= j < guess.len() ==> #[trigger] secret[i] != #[trigger] guess[j]
}

/// `count` copies of `token`.
pub open spec fn repeated(token: Seq<char>, count: nat) -> Seq<Seq<char>> {
    Seq::new(count, |k: int| token)
}

/// The tokens for `exact` exact and `present` present positions: the lone
/// failure token when both are zero, else one token for each exact position
/// followed by one for each present position.
pub open spec fn tokens_of(exact: nat, present: nat) -> Seq<Seq<char>> {
    if exact == 0 && present == 0 {
        seq![FAIL_STRING@]
    } else {
        repeated(CORRECT_STRING@, exact) + repeated(ALMOST_STRING@, present)
    }
}

/// The tokens that score a guess against a secret.
pub open spec fn score_tokens(secret: Seq<char>, guess: Seq<char>) -> Seq<Seq<char>> {
    tokens_of(exact_count(secret, guess), present_count(secret, guess))
}

/// What each of `tokens` reads.
pub open spec fn token_views(tokens: Seq<String>) -> Seq<Seq<char>> {
    tokens.map_values(|t: String| t@)
}

/// The test that a token reads `token`.
pub open spec fn reads(token: Seq<char>) -> spec_fn(Seq<char>) -> bool {
    |t: Seq<char>| t == token
}

/// How often `token` occurs among `tokens`.
pub open spec fn occurrences(tokens: Seq<Seq<char>>, token: Seq<char>) -> nat {
    tokens.filter(reads(token)).len()
}

/// The integers of `0..n` that satisfy `p`.
pub open spec fn below(p: spec_fn(int) -> bool, n: int) -> Set<int> {
    Set::new(|i: int| 0 <= i < n && p(i))
}

/// The set `below(p, n)` is finite, and grows by at most one element with `n`.
pub proof fn lemma_below_step(p: spec_fn(int) -> bool, n: int)
    requires
        0 <= n,
    ensures
        below(p, n).finite(),
        below(p, n).len() <= n,
        below(p, 0).len() == 0,
        below(p, n + 1).len() == below(p, n).len() + if p(n) { 1int } else { 0int },
{
    lemma_int_range(0, n);
    lemma_len_subset(below(p, n), set_int_range(0, n));
    assert(below(p, 0) =~= Set::<int>::empty());
    if p(n) {
        assert(below(p, n + 1) =~= below(p, n).insert(n));
    } else {
        assert(below(p, n + 1) =~= below(p, n));
    }
}

/// The exact and the present positions lie in the secret: both sets are
/// finite, and together they hold no more than the secret has positions.
pub proof fn lemma_counts_bounded(secret: Seq<char>, guess: Seq<char>)
    ensures
        exact_indices(secret, guess).finite(),
        present_indices(secret, guess).finite(),
        exact_count(secret, guess) + present_count(secret, guess) <= secret.len(),
{
    let exact = exact_indices(secret, guess);
    let present = present_indices(secret, guess);
    let all = set_int_range(0, secret.len() as int);
    lemma_int_range(0, secret.len() as int);
    lemma_len_subset(exact, all);
    lemma_len_subset(present, all);
    assert(exact.disjoint(present));
    lemma_set_disjoint_lens(exact, present);
    lemma_len_subset(exact + present, all);
}

/// Nothing is exact or present just when the two words share no character.
pub proof fn lemma_nothing_shared(secret: Seq<char>, guess: Seq<char>)
    ensures
        nothing_shared(secret, guess) <==> exact_count(secret, guess) == 0 && present_count(
            secret,
            guess,
        ) == 0,
{
    let exact = exact_indices(secret, guess);
    let present = present_indices(secret, guess);
    lemma_counts_bounded(secret, guess);
    lemma_set_empty_equivalency_len(exact);
    lemma_set_empty_equivalency_len(present);
    if nothing_shared(secret, guess) {
        assert forall|i: int| !exact.contains(i) && !present.contains(i) by {
            if paired_at(secret, guess, i) {
                let j = choose|j: int| 0 <= j < guess.len() && guess[j] == secret[i];
                assert(secret[i] != guess[j]);
            }
        }
        assert(exact =~= Set::<int>::empty());
        assert(present =~= Set::<int>::empty());
    } else {
        let (i, j) = choose|i: int, j: int|
            0 <= i < secret.len() && 0 <= j < guess.len() && #[trigger] secret[i]
                == #[trigger] guess[j];
        assert(paired_at(secret, guess, i));
        assert(exact.contains(i) || present.contains(i));
    }
}

/// Among copies of one token, another token does not occur.
pub proof fn lemma_occurrences_repeated(token: Seq<char>, count: nat, wanted: Seq<char>)
    ensures
        occurrences(repeated(token, count), wanted) == if token == wanted {
            count
        } else {
            0
        },
    decreases count,
{
    if count == 0 {
        assert(repeated(token, count) =~= Seq::<Seq<char>>::empty());
    } else {
        let fewer = repeated(token, (count - 1) as nat);
        lemma_occurrences_repeated(token, (count - 1) as nat, wanted);
        assert(repeated(token, count) =~= fewer.push(token));
        Seq::lemma_filter_push(fewer, token, reads(wanted));
    }
}

/// The three tokens read differently.
pub proof fn lemma_tokens_differ()
    ensures
        CORRECT_STRING@ != ALMOST_STRING@,
        CORRECT_STRING@ != FAIL_STRING@,
        ALMOST_STRING@ != FAIL_STRING@,
{
    reveal_strlit("Fermi");
    reveal_strlit("Pico");
    reveal_strlit("Bagels");
    assert(CORRECT_STRING@.len() == 5);
    assert(ALMOST_STRING@.len() == 4);
    assert(FAIL_STRING@.len() == 6);
}

/// How often each token occurs in the tokens of a tally.
pub proof fn lemma_token_counts(exact: nat, present: nat)
    ensures
        occurrences(tokens_of(exact, present), CORRECT_STRING@) == exact,
        occurrences(tokens_of(exact, present), ALMOST_STRING@) == present,
        occurrences(tokens_of(exact, present), FAIL_STRING@) == if exact == 0 && present == 0 {
            1nat
        } else {
            0nat
        },
        tokens_of(exact, present).len() == if exact == 0 && present == 0 {
            1nat
        } else {
            exact + present
        },
{
    lemma_tokens_differ();
    if exact == 0 && present == 0 {
        let none = Seq::<Seq<char>>::empty();
        assert(tokens_of(exact, present) =~= none.push(FAIL_STRING@));
        Seq::lemma_filter_push(none, FAIL_STRING@, reads(CORRECT_STRING@));
        Seq::lemma_filter_push(none, FAIL_STRING@, reads(ALMOST_STRING@));
        Seq::lemma_filter_push(none, FAIL_STRING@, reads(FAIL_STRING@));
    } else {
        let hits = repeated(CORRECT_STRING@, exact);
        let near = repeated(ALMOST_STRING@, present);
        Seq::filter_distributes_over_add(hits, near, reads(CORRECT_STRING@));
        Seq::filter_distributes_over_add(hits, near, reads(ALMOST_STRING@));
        Seq::filter_distributes_over_add(hits, near, reads(FAIL_STRING@));
        lemma_occurrences_repeated(CORRECT_STRING@, exact, CORRECT_STRING@);
        lemma_occurrences_repeated(CORRECT_STRING@, exact, ALMOST_STRING@);
        lemma_occurrences_repeated(CORRECT_STRING@, exact, FAIL_STRING@);
        lemma_occurrences_repeated(ALMOST_STRING@, present, CORRECT_STRING@);
        lemma_occurrences_repeated(ALMOST_STRING@, present, ALMOST_STRING@);
        lemma_occurrences_repeated(ALMOST_STRING@, present, FAIL_STRING@);
    }
}

/// A score holds the failure token exactly once when the secret and the
/// guess share no character, and not at all when they share one. In the
/// first case the failure token is the whole score.
pub proof fn law_failure_token(secret: Seq<char>, guess: Seq<char>)
    ensures
        occurrences(score_tokens(secret, guess), FAIL_STRING@) == 1 <==> nothing_shared(
            secret,
            guess,
        ),
        nothing_shared(secret, guess) ==> score_tokens(secret, guess) == seq![FAIL_STRING@],
        !nothing_shared(secret, guess) ==> occurrences(score_tokens(secret, guess), FAIL_STRING@)
            == 0,
{
    lemma_nothing_shared(secret, guess);
    lemma_token_counts(exact_count(secret, guess), present_count(secret, guess));
}

/// A score holds one exact token for each position at which the secret and
/// the guess hold the same character, and one present token for each
/// position that is present.
pub proof fn law_exact_tokens(secret: Seq<char>, guess: Seq<char>)
    ensures
        occurrences(score_tokens(secret, guess), CORRECT_STRING@) == exact_count(secret, guess),
        occurrences(score_tokens(secret, guess), ALMOST_STRING@) == present_count(secret, guess),
        exact_indices(secret, guess) == Set::new(
            |i: int| 0 <= i < secret.len() && i < guess.len() && secret[i] == guess[i],
        ),
{
    lemma_token_counts(exact_count(secret, guess), present_count(secret, guess));
    assert(exact_indices(secret, guess) =~= Set::new(
        |i: int| 0 <= i < secret.len() && i < guess.len() && secret[i] == guess[i],
    ));
}

/// For each position of the secret, whether its character occurs in the guess.
fn paired_flags(secret: &Vec<char>, guess: &Vec<char>) -> (flags: Vec<bool>)
    ensures
        flags@.len() == secret@.len(),
        forall|i: int| 0 <= i < secret@.len() ==> flags@[i] == paired_at(secret@, guess@, i),
{
    let n = secret.len();
    let m = guess.len();
    let pairs = cartesian_product(secret, guess);
    let total = pairs.len();
    let mut flags: Vec<bool> = Vec::new();
    let mut i: usize = 0;
    let mut k: usize = 0;
    while i < n
        invariant
            i <= n,
            n == secret@.len(),
            m == guess@.len(),
            pairs@ == product_of(secret@, guess@),
            total == pairs@.len(),
            k == i * m,
            flags@.len() == i,
            forall|x: int| 0 <= x < i ==> flags@[x] == paired_at(secret@, guess@, x),
        decreases n - i,
    {
        let mut found = false;
        let mut j: usize = 0;
        while j < m
            invariant
                j <= m,
                i < n,
                n == secret@.len(),
                m == guess@.len(),
                pairs@ == product_of(secret@, guess@),
                total == pairs@.len(),
                k == i * m + j,
                found == (exists|y: int| 0 <= y < j && guess@[y] == secret@[i as int]),
            decreases m - j,
        {
            proof {
                lemma_product_index(secret@, guess@, i as int, j as int);
            }
            let pair = pairs[k];
            if pair.0 == pair.1 {
                found = true;
            }
            j = j + 1;
            k = k + 1;
        }
        assert(i * m + m == (i + 1) * m) by (nonlinear_arith);
        flags.push(found);
        i = i + 1;
    }
    flags
}

/// How many positions of a secret a guess got exact, and how many present.
#[derive(Debug, Clone, Copy, PartialEq, Eq, Structural)]
pub struct Tally {
    pub exact: usize,
    pub present: usize,
}

/// Counts the exact and the present positions of `secret` under `guess`.
pub(crate) fn tally_chars(secret: &Vec<char>, guess: &Vec<char>) -> (tally: Tally)
    ensures
        tally.exact == exact_count(secret@, guess@),
        tally.present == present_count(secret@, guess@),
{
    let n = secret.len();
    let m = guess.len();
    let flags = paired_flags(secret, guess);
    let ghost is_exact = |x: int| exact_at(secret@, guess@, x);
    let ghost is_present = |x: int| present_at(secret@, guess@, x);
    let mut exact: usize = 0;
    let mut present: usize = 0;
    let mut i: usize = 0;
    proof {
        lemma_below_step(is_exact, 0);
        lemma_below_step(is_present, 0);
    }
    while i < n
        invariant
            i <= n,
            n == secret@.len(),
            m == guess@.len(),
            flags@.len() == n,
            forall|x: int| 0 <= x < n ==> flags@[x] == paired_at(secret@, guess@, x),
            is_exact == (|x: int| exact_at(secret@, guess@, x)),
            is_present == (|x: int| present_at(secret@, guess@, x)),
            exact == below(is_exact, i as int).len(),
            present == below(is_present, i as int).len(),
            exact <= i,
            present <= i,
        decreases n - i,
    {
        proof {
            lemma_below_step(is_exact, i as int);
            lemma_below_step(is_present, i as int);
        }
        if i < m && secret[i] == guess[i] {
            exact = exact + 1;
        } else if flags[i] {
            present = present + 1;
        }
        i = i + 1;
    }
    proof {
        assert(below(is_exact, n as int) =~= exact_indices(secret@, guess@));
        assert(below(is_present, n as int) =~= present_indices(secret@, guess@));
    }
    Tally { exact, present }
}

/// Counts the exact and the present positions of `secret` under `guess`.
pub fn tally(secret: &str, guess: &str) -> (tally: Tally)
    ensures
        tally.exact == exact_count(secret@, guess@),
        tally.present == present_count(secret@, guess@),
{
    let secret = to_chars(secret);
    let guess = to_chars(guess);
    tally_chars(&secret, &guess)
}

/// Appends `count` copies of `token` to `tokens`.
fn push_tokens(tokens: &mut Vec<String>, token: &str, count: usize)
    ensures
        token_views(final(tokens)@) == token_views(old(tokens)@) + repeated(token@, count as nat),
{
    let mut i: usize = 0;
    while i < count
        invariant
            i <= count,
            token_views(tokens@) == token_views(old(tokens)@) + repeated(token@, i as nat),
        decreases count - i,
    {
        let ghost before = tokens@;
        let copy = token.to_owned();
        tokens.push(copy);
        assert(token_views(tokens@) =~= token_views(before).push(token@));
        assert(repeated(token@, (i + 1) as nat) =~= repeated(token@, i as nat).push(token@));
        i = i + 1;
    }
}

impl Tally {
    /// The tokens that report this tally to the player.
    pub fn tokens(&self) -> (tokens: Vec<String>)
        ensures
            token_views(tokens@) == tokens_of(self.exact as nat, self.present as nat),
    {
        let mut tokens: Vec<String> = Vec::new();
        assert(token_views(tokens@) =~= Seq::<Seq<char>>::empty());
        if self.exact == 0 && self.present == 0 {
            tokens.push(FAIL_STRING.to_owned());
            assert(token_views(tokens@) =~= seq![FAIL_STRING@]);
        } else {
            push_tokens(&mut tokens, CORRECT_STRING, self.exact);
            push_tokens(&mut tokens, ALMOST_STRING, self.present);
        }
        tokens
    }
}

} // verus!
