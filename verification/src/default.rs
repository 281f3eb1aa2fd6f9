//! The classical Collatz step (divide by 2, or 3n + 1) and its pre-images.

use vstd::prelude::*;
use vstd::arithmetic::div_mod::lemma_fundamental_div_mod;
use vstd::arithmetic::div_mod::lemma_fundamental_div_mod_converse;

verus! {

/// One step of the classical Collatz map: an even value is halved, an odd
/// value is sent to three times itself plus one.
pub open spec fn step(n: int) -> int {
    if n % 2 == 0 {
        n / 2
    } else {
        3 * n + 1
    }
}

/// `n` has a second pre-image under `step` exactly when it is congruent to
/// 4 modulo 6 (the remainder taken non-negative, so negative `n` is covered).
pub open spec fn has_odd_predecessor(n: int) -> bool {
    n % 6 == 4
}

/// The second pre-image of `n`, meaningful only when `has_odd_predecessor(n)`
/// holds: the unique odd `m` with `3 * m + 1 == n`.
pub open spec fn odd_predecessor(n: int) -> int {
    (n - 1) / 3
}

/// The classical Collatz step on machine integers.
pub fn function(n: i128) -> (r: i128)
    requires
        n % 2 != 0 ==> i128::MIN <= 3 * n && 3 * n + 1 <= i128::MAX,
    ensures
        r == step(n as int),
{
    if n % 2 == 0 {
        n / 2
    } else {
        3 * n + 1
    }
}

/// The pre-images of `n` under the classical step: doubling always yields
/// one, and exactly when `n % 6 == 4` (non-negative remainder) there is a
/// second, odd pre-image `(n - 1) / 3`.
pub fn reverse_function(n: i128) -> (r: (i128, Option<i128>))
    requires
        i128::MIN <= 2 * n <= i128::MAX,
    ensures
        r.0 == 2 * n,
        has_odd_predecessor(n as int) ==> r.1 == Some(odd_predecessor(n as int) as i128),
        !has_odd_predecessor(n as int) ==> r.1 is None,
{
    let rem = n.checked_rem_euclid(6).unwrap();
    if rem == 4 {
        proof {
            let k = n as int / 6;
            lemma_fundamental_div_mod(n as int, 6);
            lemma_fundamental_div_mod_converse(n as int - 1, 3, 2 * k + 1, 0);
        }
        (2 * n, Some((n - 1) / 3))
    } else {
        (2 * n, None)
    }
}

/// The doubled value is always a pre-image: stepping from `2 * n` comes
/// straight back to `n`.
pub proof fn lemma_doubled_round_trip(n: int)
    ensures
        step(2 * n) == n,
{
    lemma_fundamental_div_mod_converse(2 * n, 2, n, 0);
}

/// When `n % 6 == 4`, the second pre-image `(n - 1) / 3` is odd and stepping
/// from it comes straight back to `n`; so both values `reverse_function`
/// offers really map to `n` under the forward step.
pub proof fn lemma_odd_predecessor_round_trip(n: int)
    requires
        has_odd_predecessor(n),
    ensures
        odd_predecessor(n) % 2 == 1,
        step(odd_predecessor(n)) == n,
{
    let k = n / 6;
    lemma_fundamental_div_mod(n, 6);
    lemma_fundamental_div_mod_converse(n - 1, 3, 2 * k + 1, 0);
    lemma_fundamental_div_mod_converse(2 * k + 1, 2, k, 1);
}

} // verus!
