//! The generalized Collatz step in its checked form: the parameters are
//! validated first, and a degenerate parameterisation is reported as an
//! error value rather than a fault at the division.

use vstd::prelude::*;
use crate::parameterised::has_second_predecessor;
use crate::parameterised::second_predecessor;
use crate::parameterised::step_with;

verus! {

/// Why a parameterisation was rejected: a zero modulus would mean dividing
/// by the modulus is impossible, and a zero multiplier would collapse every
/// non-divisible value to the offset, destroying reversibility.
#[derive(Clone, Copy, Debug, PartialEq, Eq, Structural)]
pub enum ParameterFault {
    ZeroModulus,
    ZeroMultiplier,
}

/// The error returned when a parameterisation fails the sanity check.
#[derive(Clone, Copy, Debug, PartialEq, Eq, Structural)]
pub struct FailedSaneParameterCheck {
    pub fault: ParameterFault,
}

impl FailedSaneParameterCheck {
    /// A human-readable account of the failed check.
    pub fn message(&self) -> (r: &'static str)
        ensures
            self.fault == ParameterFault::ZeroModulus ==> r@ == "'p' should not be 0 ~ violates modulo being non-zero."@,
            self.fault == ParameterFault::ZeroMultiplier ==> r@ == "'a' should not be 0 ~ violates the reversability."@,
    {
        match self.fault {
            ParameterFault::ZeroModulus => "'p' should not be 0 ~ violates modulo being non-zero.",
            ParameterFault::ZeroMultiplier => "'a' should not be 0 ~ violates the reversability.",
        }
    }
}

/// The sanity check on a parameterisation, as a value: `None` means the
/// parameters pass, otherwise the fault that rejects them. Only the modulus
/// and the multiplier are consulted; the offset is unconstrained and the
/// stepped value plays no part at all.
pub open spec fn parameter_fault(p: int, a: int) -> Option<ParameterFault> {
    if p == 0 {
        Some(ParameterFault::ZeroModulus)
    } else if a == 0 {
        Some(ParameterFault::ZeroMultiplier)
    } else {
        None
    }
}

/// What the checked step returns: the fault when the parameters are
/// rejected, otherwise the generalized step itself.
pub open spec fn checked_step(n: int, p: int, a: int, b: int) -> Result<int, ParameterFault> {
    match parameter_fault(p, a) {
        Some(f) => Err(f),
        None => Ok(step_with(n, p, a, b)),
    }
}

/// Rejects a degenerate parameterisation: a zero modulus first, then a zero
/// multiplier. The offset takes no part in the check.
pub fn assert_sane_parameterisation(p: i128, a: i128, _b: i128) -> (r: Result<
    (),
    FailedSaneParameterCheck,
>)
    ensures
        r is Ok <==> parameter_fault(p as int, a as int) is None,
        (match r {
            Ok(_) => parameter_fault(p as int, a as int) is None,
            Err(e) => Some(e.fault) == parameter_fault(p as int, a as int),
        }),
{
    if p == 0 {
        return Err(FailedSaneParameterCheck { fault: ParameterFault::ZeroModulus });
    }
    if a == 0 {
        return Err(FailedSaneParameterCheck { fault: ParameterFault::ZeroMultiplier });
    }
    Ok(())
}

/// The checked generalized step: validates the parameters, then divides by
/// the modulus or applies the multiply-and-add branch.
pub fn function(n: i128, p: i128, a: i128, b: i128) -> (r: Result<i128, FailedSaneParameterCheck>)
    requires
        p != 0 && a != 0 ==> !(n == i128::MIN && p == -1),
        p != 0 && a != 0 && n % p != 0 ==> i128::MIN <= a * n <= i128::MAX && i128::MIN <= a * n
            + b <= i128::MAX,
    ensures
        (match r {
            Ok(v) => parameter_fault(p as int, a as int) is None && v == step_with(
                n as int,
                p as int,
                a as int,
                b as int,
            ),
            Err(e) => Some(e.fault) == parameter_fault(p as int, a as int),
        }),
{
    match assert_sane_parameterisation(p, a, b) {
        Err(e) => Err(e),
        Ok(()) => Ok(crate::parameterised::function(n, p, a, b)),
    }
}

/// The pre-images of `n` under the generalized step, as in
/// `parameterised::reverse_function`: the checked and the unchecked form
/// share one reverse relation, which never consults the validation.
pub fn reverse_function(n: i128, p: i128, a: i128, b: i128) -> (r: (i128, Option<i128>))
    requires
        p != 0,
        a != 0,
        i128::MIN <= n - b <= i128::MAX,
        i128::MIN <= p * a <= i128::MAX,
        i128::MIN <= p * n <= i128::MAX,
        !(n - b == i128::MIN && a == -1),
        !(n - b == i128::MIN && p * a == -1),
    ensures
        r.0 == p * n,
        has_second_predecessor(n as int, p as int, a as int, b as int) ==> r.1 == Some(
            second_predecessor(n as int, a as int, b as int) as i128,
        ),
        !has_second_predecessor(n as int, p as int, a as int, b as int) ==> r.1 is None,
{
    crate::parameterised::reverse_function(n, p, a, b)
}

/// Whether a parameterisation is rejected, and with which fault, depends on
/// the modulus and the multiplier alone: two checked steps with the same
/// `p` and `a` fail together, with the same fault, whatever their subjects
/// and offsets are.
pub proof fn lemma_validation_independent_of_subject(
    p: int,
    a: int,
    n1: int,
    b1: int,
    n2: int,
    b2: int,
)
    ensures
        checked_step(n1, p, a, b1) is Err <==> checked_step(n2, p, a, b2) is Err,
        checked_step(n1, p, a, b1) is Err ==> checked_step(n1, p, a, b1) == checked_step(
            n2,
            p,
            a,
            b2,
        ),
{
}

} // verus!
