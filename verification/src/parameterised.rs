//! The generalized Collatz step with a runtime modulus `p`, multiplier `a`
//! and offset `b` (the classical rule is `p == 2`, `a == 3`, `b == 1`), and
//! its pre-images. These are the unchecked forms: they demand sane
//! parameters up front instead of reporting a failed check.

use vstd::prelude::*;
use vstd::arithmetic::div_mod::lemma_fundamental_div_mod;

verus! {

/// One step of the generalized map: a value divisible by `p` is divided by
/// it, any other value is sent to `a * n + b`. Meaningful only for `p != 0`.
pub open spec fn step_with(n: int, p: int, a: int, b: int) -> int
    recommends
        p != 0,
{
    if n % p == 0 {
        n / p
    } else {
        a * n + b
    }
}

/// `n` has a second pre-image under the generalized step exactly when
/// `n - b` is divisible by `a` but not by `p * a`; the second condition
/// keeps out pre-image candidates that are themselves divisible by `p`
/// (those take the divide branch forward, so they would not map to `n`).
pub open spec fn has_second_predecessor(n: int, p: int, a: int, b: int) -> bool
    recommends
        p != 0,
        a != 0,
{
    (n - b) % a == 0 && (n - b) % (p * a) != 0
}

/// The second pre-image of `n`, meaningful only when
/// `has_second_predecessor` holds: the unique `m` outside the divide branch
/// with `a * m + b == n`.
pub open spec fn second_predecessor(n: int, a: int, b: int) -> int
    recommends
        a != 0,
{
    (n - b) / a
}

/// The non-negative remainder of `n` by a non-zero `p` of machine width
/// always fits in an `i128`.
proof fn lemma_euclid_rem_in_range(n: int, p: int)
    requires
        p != 0,
        i128::MIN <= p <= i128::MAX,
    ensures
        0 <= n % p <= i128::MAX,
{
    assert(0 <= n % p < (if p > 0 {
        p
    } else {
        -p
    })) by (nonlinear_arith)
        requires
            p != 0,
    ;
}

/// An exact quotient of machine-width values fits in an `i128`, except for
/// the one well-known overflow `i128::MIN / -1`.
proof fn lemma_exact_quotient_in_range(n: int, p: int)
    requires
        p != 0,
        n % p == 0,
        i128::MIN <= n <= i128::MAX,
        i128::MIN <= p <= i128::MAX,
        !(n == i128::MIN && p == -1),
    ensures
        i128::MIN <= n / p <= i128::MAX,
{
    lemma_fundamental_div_mod(n, p);
    let q = n / p;
    if p == 1 {
        assert(q == n) by (nonlinear_arith)
            requires
                n == p * q,
                p == 1,
        ;
    } else if p == -1 {
        assert(q == -n) by (nonlinear_arith)
            requires
                n == p * q,
                p == -1,
        ;
    } else {
        assert(i128::MIN <= q <= i128::MAX) by (nonlinear_arith)
            requires
                n == p * q,
                p >= 2 || p <= -2,
                i128::MIN <= n <= i128::MAX,
        ;
    }
}

/// The generalized step on machine integers. Callers must supply a non-zero
/// modulus and multiplier; the checked form in `generic` reports bad
/// parameters as an error instead.
pub fn function(n: i128, p: i128, a: i128, b: i128) -> (r: i128)
    requires
        p != 0,
        a != 0,
        !(n == i128::MIN && p == -1),
        n % p != 0 ==> i128::MIN <= a * n <= i128::MAX && i128::MIN <= a * n + b <= i128::MAX,
    ensures
        r == step_with(n as int, p as int, a as int, b as int),
{
    proof {
        lemma_euclid_rem_in_range(n as int, p as int);
    }
    let rem = n.checked_rem_euclid(p).unwrap();
    if rem == 0 {
        proof {
            lemma_exact_quotient_in_range(n as int, p as int);
        }
        n.checked_div_euclid(p).unwrap()
    } else {
        a * n + b
    }
}

/// The pre-images of `n` under the generalized step: multiplying by `p`
/// always yields one, and exactly when `n - b` is divisible by `a` but not
/// by `p * a` there is a second pre-image `(n - b) / a`.
pub fn reverse_function(n: i128, p: i128, a: i128, b: i128) -> (r: (i128, Option<i128>))
    requires
        p != 0,
        a != 0,
        i128::MIN <= n - b <= i128::MAX,
        i128::MIN <= p * a <= i128::MAX,
        i128::MIN <= p * n <= i128::MAX,
        !(n - b == i128::MIN && a == -1),
        !(n - b == i128::MIN && p * a == -1),
    ensures
        r.0 == p * n,
        has_second_predecessor(n as int, p as int, a as int, b as int) ==> r.1 == Some(
            second_predecessor(n as int, a as int, b as int) as i128,
        ),
        !has_second_predecessor(n as int, p as int, a as int, b as int) ==> r.1 is None,
{
    proof {
        assert(p * a != 0) by (nonlinear_arith)
            requires
                p != 0,
                a != 0,
        ;
    }
    let d = n - b;
    let pa = p * a;
    proof {
        lemma_euclid_rem_in_range(d as int, a as int);
        lemma_euclid_rem_in_range(d as int, pa as int);
    }
    let rem_by_a = d.checked_rem_euclid(a).unwrap();
    let rem_by_pa = d.checked_rem_euclid(pa).unwrap();
    if rem_by_a == 0 && rem_by_pa != 0 {
        proof {
            lemma_exact_quotient_in_range(d as int, a as int);
        }
        (p * n, Some(d.checked_div_euclid(a).unwrap()))
    } else {
        (p * n, None)
    }
}

/// The multiplied value is always a pre-image: for a non-zero modulus `p`,
/// stepping from `p * n` takes the divide branch and comes straight back
/// to `n`, whatever `a` and `b` are.
pub proof fn lemma_multiplied_round_trip(n: int, p: int, a: int, b: int)
    requires
        p != 0,
    ensures
        step_with(p * n, p, a, b) == n,
{
    assert((p * n) % p == 0 && (p * n) / p == n) by (nonlinear_arith)
        requires
            p != 0,
    ;
}

/// When the second pre-image exists, it lies outside the divide branch and
/// stepping from it comes straight back to `n`; so both values
/// `reverse_function` offers really map to `n` under the generalized step.
pub proof fn lemma_second_predecessor_round_trip(n: int, p: int, a: int, b: int)
    requires
        p != 0,
        a != 0,
        has_second_predecessor(n, p, a, b),
    ensures
        second_predecessor(n, a, b) % p != 0,
        step_with(second_predecessor(n, a, b), p, a, b) == n,
{
    let m = second_predecessor(n, a, b);
    lemma_fundamental_div_mod(n - b, a);
    assert(a * m == n - b);
    if m % p == 0 {
        let q = m / p;
        lemma_fundamental_div_mod(m, p);
        assert(m == p * q);
        let pa = p * a;
        assert(pa != 0) by (nonlinear_arith)
            requires
                p != 0,
                a != 0,
                pa == p * a,
        ;
        assert(n - b == pa * q) by (nonlinear_arith)
            requires
                a * m == n - b,
                m == p * q,
                pa == p * a,
        ;
        assert((n - b) % pa == 0) by (nonlinear_arith)
            requires
                pa != 0,
                n - b == pa * q,
        ;
        assert(false);
    }
}

} // verus!
