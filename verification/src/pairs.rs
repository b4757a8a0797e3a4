//! Every pairing of a secret's characters with a guess's characters.

use itertools::Itertools;
use vstd::prelude::*;

verus! {

/// The pairs `(left[i], right[j])`, ordered by `i` and then by `j`.
pub open spec fn product_of(left: Seq<char>, right: Seq<char>) -> Seq<(char, char)> {
    Seq::new(
        left.len() * right.len(),
        |k: int| (left[k / (right.len() as int)], right[k % (right.len() as int)]),
    )
}

/// Calls `Itertools::cartesian_product` on the two character lists and
/// gathers what it yields with `Itertools::collect_vec`.
///
/// Trusted: the adaptor yields, for each element of `left` in turn, that
/// element paired with every element of `right` in turn, and nothing else.
#[verifier::external_body]
pub(crate) fn cartesian_product(left: &Vec<char>, right: &Vec<char>) -> (pairs: Vec<(char, char)>)
    ensures
        pairs@ == product_of(left@, right@),
{
    left.iter().copied().cartesian_product(right.iter().copied()).collect_vec()
}

/// Where the pair of `left[i]` and `right[j]` stands in the product.
pub proof fn lemma_product_index(left: Seq<char>, right: Seq<char>, i: int, j: int)
    requires
        0 <= i < left.len(),
        0 <= j < right.len(),
    ensures
        0 <= i * right.len() + j < product_of(left, right).len(),
        product_of(left, right)[i * right.len() + j] == (left[i], right[j]),
{
    let m = right.len() as int;
    let k = i * m + j;
    assert(0 <= i * m) by (nonlinear_arith)
        requires
            0 <= i,
            0 <= m,
    ;
    assert(i * m + m <= left.len() * m) by (nonlinear_arith)
        requires
            0 <= i < left.len(),
            0 <= m,
    ;
    vstd::arithmetic::div_mod::lemma_fundamental_div_mod_converse(k, m, i, j);
}

} // verus!
