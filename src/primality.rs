use vstd::arithmetic::power::pow;
use vstd::arithmetic::power2::pow2;
use vstd::prelude::*;
use vstd::string::*;

use crate::bignat::{
    BigNat, add_u64, bit_len, decimal, from_u64, is_prime_number, modulus, powm, probab_prime,
    same_value, shl, shr, sub_u64, to_decimal, to_u64,
};

verus! {

/// The primes below one hundred, smallest first.
pub const SMALL_PRIMES: [u64; 25] = [
    2, 3, 5, 7, 11, 13, 17, 19, 23, 29, 31, 37, 41, 43, 47, 53, 59, 61, 67, 71, 73, 79, 83, 89, 97,
];

/// Trial division by the table from position `i` on: `Some(n == p)` for the
/// first prime `p` of the table that divides `n`, `None` if none does.
pub open spec fn trial_division_from(n: nat, i: int) -> Option<bool>
    decreases 25 - i,
{
    if i < 0 || i >= 25 {
        None
    } else if n % (SMALL_PRIMES@[i] as nat) == 0 {
        Some(n == SMALL_PRIMES@[i] as nat)
    } else {
        trial_division_from(n, i + 1)
    }
}

/// Whether `r` is a verdict that GMP's test, after trial division by the
/// small primes when `trial_division` is set, may give on `n`: trial division
/// decides when a small prime divides `n`; otherwise GMP may call a composite
/// probably prime, but never calls a prime composite.
pub open spec fn library_allows(n: nat, trial_division: bool, r: bool) -> bool {
    if trial_division && trial_division_from(n, 0) is Some {
        r == trial_division_from(n, 0)->0
    } else {
        is_prime_number(n) ==> r
    }
}

/// Fermat's test to base two: `2^(n-1) mod n == 1`.
pub open spec fn fermat_passes(n: nat) -> bool {
    n >= 1 && pow(2, (n - 1) as nat) % (n as int) == 1
}

/// The Euler–Lagrange–Lifchitz test of `n = 2p + 1` (`sophie_germain`) or
/// `n = 2p - 1`: of the residues of `n` modulo 8, 7 and 3 decide for the first
/// form, 5 and 1 for the second, by `2^((n-1)/2) mod n` being 1 or `n - 1`.
pub open spec fn ell_passes(n: nat, sophie_germain: bool) -> bool {
    let r = pow(2, ((n - 1) as nat) / 2) % (n as int);
    let c = n % 8;
    if n < 1 {
        false
    } else if sophie_germain && c == 7 {
        r == 1
    } else if sophie_germain && c == 3 {
        r + 1 == n
    } else if !sophie_germain && c == 5 {
        r + 1 == n
    } else if !sophie_germain && c == 1 {
        r == 1
    } else {
        false
    }
}

/// `floor(log2(n))` for a positive `n`.
pub open spec fn log2_floor(n: nat) -> nat
    decreases n,
{
    if n <= 1 {
        0
    } else {
        log2_floor(n / 2) + 1
    }
}

/// The number of decimal digits of `2^bits`.
pub open spec fn digits_of_bits(bits: nat) -> nat {
    decimal(pow2(bits)).len()
}

/// The number of rounds of the probabilistic test for numbers of `bits` bits:
/// `floor(log2(bits))`, doubled once such numbers have more than 32 digits.
pub open spec fn checks_for_bits(bits: nat) -> int {
    if digits_of_bits(bits) <= 32 {
        log2_floor(bits) as int
    } else {
        2 * log2_floor(bits) as int
    }
}

/// How a candidate is judged probably prime.
#[derive(Debug, Clone, Copy, PartialEq, Eq, Structural)]
pub enum PrimalityOracle {
    /// GMP's test with `checks` rounds, preceded by trial division by the
    /// small primes when `trial_division` is set.
    Library { checks: i32, trial_division: bool },
    /// Fermat's test to base two; a chain link must also pass the
    /// Euler–Lagrange–Lifchitz test for its direction.
    FermatLifchitz,
}

impl PrimalityOracle {
    /// Whether the oracle may answer `r` to "is `n` a probable prime?".
    pub open spec fn allows(self, n: nat, r: bool) -> bool {
        match self {
            PrimalityOracle::Library { trial_division, .. } => library_allows(
                n,
                trial_division,
                r,
            ),
            PrimalityOracle::FermatLifchitz => r == fermat_passes(n),
        }
    }

    /// Whether the oracle may answer `r` for `n` reached by a chain link of
    /// the form `2p + 1` (`sophie_germain`) or `2p - 1`.
    pub open spec fn link_allows(self, n: nat, sophie_germain: bool, r: bool) -> bool {
        match self {
            PrimalityOracle::Library { .. } => self.allows(n, r),
            PrimalityOracle::FermatLifchitz => r == (fermat_passes(n) && ell_passes(
                n,
                sophie_germain,
            )),
        }
    }

    /// The oracle that the search uses for numbers of `bits` bits: trial
    /// division first while they have at most 64 decimal digits.
    pub open spec fn spec_for_bits(bits: nat) -> PrimalityOracle {
        PrimalityOracle::Library {
            checks: checks_for_bits(bits) as i32,
            trial_division: digits_of_bits(bits) <= 64,
        }
    }

    /// The oracle for numbers of `bits` bits.
    pub fn for_bits(bits: usize) -> (r: PrimalityOracle)
        requires
            bits >= 1,
        ensures
            r == Self::spec_for_bits(bits as nat),
    {
        let digits = digits_of_power_of_two(bits);
        PrimalityOracle::Library {
            checks: primality_checks(bits),
            trial_division: digits <= 64,
        }
    }

    /// Whether `n` counts as a probable prime.
    pub fn is_probable_prime(&self, n: &BigNat) -> (r: bool)
        ensures
            self.allows(n@, r),
    {
        match self {
            PrimalityOracle::Library { checks, trial_division } => {
                if *trial_division {
                    is_prime_with_factoring(n, *checks)
                } else {
                    is_prime(n, *checks)
                }
            },
            PrimalityOracle::FermatLifchitz => fermat(n),
        }
    }

    /// Whether `n`, reached by a link `2p + 1` (`sophie_germain`) or `2p - 1`,
    /// counts as a probable prime.
    pub fn passes_link(&self, n: &BigNat, sophie_germain: bool) -> (r: bool)
        ensures
            self.link_allows(n@, sophie_germain, r),
    {
        match self {
            PrimalityOracle::Library { .. } => self.is_probable_prime(n),
            PrimalityOracle::FermatLifchitz => fermat(n) && euler_lagrange_lifchitz(
                n,
                sophie_germain,
            ),
        }
    }
}

/// `n mod m` for a word-sized modulus.
pub fn residue(n: &BigNat, m: u64) -> (r: u64)
    requires
        m > 0,
    ensures
        r as nat == n@ % (m as nat),
{
    let rem = modulus(n, &from_u64(m));
    match to_u64(&rem) {
        Some(v) => v,
        None => {
            proof {
                assert(rem@ < m);
            }
            0
        },
    }
}

/// Whether `n` equals the word `v`.
pub fn equals_u64(n: &BigNat, v: u64) -> (r: bool)
    ensures
        r == (n@ == v as nat),
{
    match to_u64(n) {
        Some(w) => w == v,
        None => false,
    }
}

/// Whether `n` is at least the word `v`.
pub fn at_least(n: &BigNat, v: u64) -> (r: bool)
    ensures
        r == (n@ >= v as nat),
{
    match to_u64(n) {
        Some(w) => w >= v,
        None => true,
    }
}

/// GMP's probabilistic test with `checks` rounds.
pub fn is_prime(n: &BigNat, checks: i32) -> (r: bool)
    ensures
        library_allows(n@, false, r),
{
    probab_prime(n, checks)
}

/// Trial division by the primes below one hundred: a multiple of one of them
/// is prime only if it is that prime; anything else goes to GMP's test.
pub fn is_prime_with_factoring(n: &BigNat, checks: i32) -> (r: bool)
    ensures
        library_allows(n@, true, r),
{
    let mut i: usize = 0;
    while i < 25
        invariant
            i <= 25,
            trial_division_from(n@, 0) == trial_division_from(n@, i as int),
        decreases 25 - i,
    {
        let p = SMALL_PRIMES[i];
        if residue(n, p) == 0 {
            return equals_u64(n, p);
        }
        i = i + 1;
    }
    is_prime(n, checks)
}

/// Fermat's test to base two.
pub fn fermat(n: &BigNat) -> (r: bool)
    ensures
        r == fermat_passes(n@),
{
    if !at_least(n, 1) {
        return false;
    }
    let e = sub_u64(n, 1);
    let rez = powm(&from_u64(2), &e, n);
    equals_u64(&rez, 1)
}

/// The Euler–Lagrange–Lifchitz test for `n = 2p + 1` (`sophie_germain`) or
/// `n = 2p - 1`.
pub fn euler_lagrange_lifchitz(n: &BigNat, sophie_germain: bool) -> (r: bool)
    ensures
        r == ell_passes(n@, sophie_germain),
{
    if !at_least(n, 1) {
        return false;
    }
    let e = shr(&sub_u64(n, 1), 1);
    proof {
        vstd::arithmetic::power2::lemma2_to64();
    }
    let rez = powm(&from_u64(2), &e, n);
    let c = residue(n, 8);
    if sophie_germain && c == 7 {
        equals_u64(&rez, 1)
    } else if sophie_germain && c == 3 {
        same_value(&add_u64(&rez, 1), n)
    } else if !sophie_germain && c == 5 {
        same_value(&add_u64(&rez, 1), n)
    } else if !sophie_germain && c == 1 {
        equals_u64(&rez, 1)
    } else {
        false
    }
}

/// A number below `2^k` has its highest bit below position `k`.
pub proof fn lemma_log2_floor_below(n: nat, k: nat)
    requires
        1 <= n < pow2(k),
    ensures
        log2_floor(n) < k,
    decreases n,
{
    if k == 0 {
        vstd::arithmetic::power2::lemma2_to64();
    }
    if n > 1 {
        vstd::arithmetic::power2::lemma_pow2_unfold(k);
        lemma_log2_floor_below(n / 2, (k - 1) as nat);
    }
}

/// `floor(log2(n))`.
pub fn log2_floor_of(n: usize) -> (r: u32)
    requires
        n >= 1,
    ensures
        r as nat == log2_floor(n as nat),
        r < 64,
{
    proof {
        vstd::arithmetic::power2::lemma2_to64();
        lemma_log2_floor_below(n as nat, 64);
    }
    let mut m = n;
    let mut r: u32 = 0;
    while m > 1
        invariant
            m >= 1,
            r + log2_floor(m as nat) == log2_floor(n as nat),
            log2_floor(n as nat) < 64,
        decreases m,
    {
        m = m / 2;
        r = r + 1;
    }
    r
}

/// The number of decimal digits of `2^bits`.
pub fn digits_of_power_of_two(bits: usize) -> (r: usize)
    ensures
        r as nat == digits_of_bits(bits as nat),
{
    let p = shl(&from_u64(1), bits);
    let s = to_decimal(&p);
    s.as_str().unicode_len()
}

/// The number of rounds of GMP's test for numbers of `bits` bits.
pub fn primality_checks(bits: usize) -> (r: i32)
    requires
        bits >= 1,
    ensures
        r as int == checks_for_bits(bits as nat),
{
    let digits = digits_of_power_of_two(bits);
    let precheck = log2_floor_of(bits);
    if digits <= 32 {
        precheck as i32
    } else {
        (precheck * 2) as i32
    }
}

} // verus!
