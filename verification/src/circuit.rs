//! The circuit size of the argument: the number of candidates plus
//! `N_BLINDERS`, a power of two, and its exponent.

use crate::N_BLINDERS;
use vstd::arithmetic::power2::{
    lemma2_to64, lemma_pow2_pos, lemma_pow2_strictly_increases, lemma_pow2_unfold, pow2,
};
use vstd::prelude::*;

verus! {

/// Why a size or an exponent is no circuit size.
#[derive(Debug, Clone, Copy, PartialEq, Eq, Structural)]
pub enum SizeError {
    /// The size is no power of two that the machine can count to.
    InvalidCircuitSize,
    /// The size leaves no room for the blinders.
    BlindersExceedSize,
}

/// `n` is a power of two.
pub open spec fn is_power_of_two(n: int) -> bool {
    exists|k: nat| pow2(k) == n
}

/// The exponent of a power of two.
pub open spec fn log2_of(n: int) -> nat {
    choose|k: nat| pow2(k) == n
}

/// The exponent that stands for the circuit size `n`, or why there is none.
pub open spec fn exponent_of(n: int) -> Result<u8, SizeError> {
    if n > usize::MAX || !is_power_of_two(n) {
        Err(SizeError::InvalidCircuitSize)
    } else if n < N_BLINDERS {
        Err(SizeError::BlindersExceedSize)
    } else {
        Ok(log2_of(n) as u8)
    }
}

/// The number of candidates of the circuit size with exponent `log2_n`, or
/// why there is none.
pub open spec fn candidates_of(log2_n: u8) -> Result<usize, SizeError> {
    if pow2(log2_n as nat) > usize::MAX {
        Err(SizeError::InvalidCircuitSize)
    } else if pow2(log2_n as nat) < N_BLINDERS {
        Err(SizeError::BlindersExceedSize)
    } else {
        Ok((pow2(log2_n as nat) - N_BLINDERS) as usize)
    }
}

/// Different exponents give different powers of two.
pub proof fn lemma_pow2_injective(a: nat, b: nat)
    requires
        pow2(a) == pow2(b),
    ensures
        a == b,
{
    if a < b {
        lemma_pow2_strictly_increases(a, b);
    } else if b < a {
        lemma_pow2_strictly_increases(b, a);
    }
}

/// A number strictly between two neighbouring powers of two is none.
pub proof fn lemma_between_powers(k: nat, n: int)
    requires
        pow2(k) < n < 2 * pow2(k),
    ensures
        !is_power_of_two(n),
{
    lemma_pow2_unfold(k + 1);
    assert forall|j: nat| pow2(j) != n by {
        if j <= k {
            if j < k {
                lemma_pow2_strictly_increases(j, k);
            }
        } else {
            if k + 1 < j {
                lemma_pow2_strictly_increases(k + 1, j);
            }
        }
    }
}

/// A power of two that a machine word holds has an exponent below 64.
pub proof fn lemma_word_exponent(k: nat)
    requires
        pow2(k) <= usize::MAX,
    ensures
        k < 64,
{
    lemma2_to64();
    if k >= 64 {
        if k > 64 {
            lemma_pow2_strictly_increases(64, k);
        }
    }
}

/// The exponent of a power of two is its logarithm.
pub proof fn lemma_log2_of_power(k: nat)
    ensures
        is_power_of_two(pow2(k) as int),
        log2_of(pow2(k) as int) == k,
{
    lemma_pow2_injective(log2_of(pow2(k) as int), k);
}

/// An exponent stands for the circuit size of `ell` candidates exactly where
/// that many candidates are what the exponent decodes to.
pub proof fn lemma_exponent_round_trip(ell: usize, log2_n: u8)
    ensures
        exponent_of(ell + N_BLINDERS) == Ok::<u8, SizeError>(log2_n) <==> candidates_of(log2_n)
            == Ok::<usize, SizeError>(ell),
{
    let n = ell + N_BLINDERS;
    if exponent_of(n) == Ok::<u8, SizeError>(log2_n) {
        let k = log2_of(n);
        lemma_word_exponent(k);
    }
    if candidates_of(log2_n) == Ok::<usize, SizeError>(ell) {
        lemma_log2_of_power(log2_n as nat);
    }
}

/// An exponent decodes to `ell` candidates only where two to its power is
/// `ell + N_BLINDERS`; it does so wherever that sum is a machine word; and it
/// decodes to nothing where the power is below `N_BLINDERS`.
pub proof fn lemma_candidates_exact(log2_n: u8, ell: usize)
    ensures
        candidates_of(log2_n) == Ok::<usize, SizeError>(ell) ==> pow2(log2_n as nat) == ell
            + N_BLINDERS,
        pow2(log2_n as nat) == ell + N_BLINDERS && ell + N_BLINDERS <= usize::MAX
            ==> candidates_of(log2_n) == Ok::<usize, SizeError>(ell),
        pow2(log2_n as nat) < N_BLINDERS ==> candidates_of(log2_n) == Err::<usize, SizeError>(
            SizeError::BlindersExceedSize,
        ),
{
}

/// Finds the exponent of the circuit size `n`.
pub fn circuit_exponent(n: usize) -> (r: Result<u8, SizeError>)
    ensures
        r == exponent_of(n as int),
{
    if n == 0 {
        proof {
            assert forall|j: nat| pow2(j) != 0 by {
                lemma_pow2_pos(j);
            }
        }
        return Err(SizeError::InvalidCircuitSize);
    }
    let mut k: u8 = 0;
    let mut p: usize = 1;
    proof {
        lemma2_to64();
    }
    while p <= n / 2
        invariant
            1 <= p <= n,
            p == pow2(k as nat),
            k < 64,
        decreases n - p,
    {
        proof {
            lemma_pow2_unfold((k + 1) as nat);
            lemma_word_exponent((k + 1) as nat);
        }
        p = p * 2;
        k = k + 1;
    }
    if p != n {
        proof {
            lemma_between_powers(k as nat, n as int);
        }
        Err(SizeError::InvalidCircuitSize)
    } else {
        proof {
            lemma_log2_of_power(k as nat);
        }
        if n < N_BLINDERS {
            Err(SizeError::BlindersExceedSize)
        } else {
            Ok(k)
        }
    }
}

/// Finds the exponent of the circuit size of `ell` candidates.
pub fn exponent_of_candidates(ell: usize) -> (r: Result<u8, SizeError>)
    ensures
        r == exponent_of(ell + N_BLINDERS),
        !(r matches Err(SizeError::BlindersExceedSize)),
{
    if ell > usize::MAX - N_BLINDERS {
        Err(SizeError::InvalidCircuitSize)
    } else {
        circuit_exponent(ell + N_BLINDERS)
    }
}

/// Recovers the number of candidates from the exponent of a circuit size.
pub fn candidates_of_exponent(log2_n: u8) -> (r: Result<usize, SizeError>)
    ensures
        r == candidates_of(log2_n),
{
    let mut p: usize = 1;
    let mut i: u8 = 0;
    proof {
        lemma2_to64();
    }
    while i < log2_n
        invariant
            i <= log2_n,
            p == pow2(i as nat),
        decreases log2_n - i,
    {
        proof {
            lemma_pow2_unfold((i + 1) as nat);
        }
        if p > usize::MAX / 2 {
            proof {
                if i + 1 < log2_n {
                    lemma_pow2_strictly_increases((i + 1) as nat, log2_n as nat);
                }
            }
            return Err(SizeError::InvalidCircuitSize);
        }
        p = p * 2;
        i = i + 1;
    }
    if p < N_BLINDERS {
        Err(SizeError::BlindersExceedSize)
    } else {
        Ok(p - N_BLINDERS)
    }
}

} // verus!
