use vstd::arithmetic::power::pow;
use vstd::arithmetic::power2::pow2;
use vstd::prelude::*;

use gmp::mpz::{Mpz, ProbabPrimeResult};
use gmp::rand::RandState;

verus! {

/// The number that a big-endian sequence of bytes stands for.
pub open spec fn be_value(s: Seq<u8>) -> nat
    decreases s.len(),
{
    if s.len() == 0 {
        0
    } else {
        be_value(s.drop_last()) * 256 + s.last() as nat
    }
}

/// The character of a decimal digit.
pub open spec fn digit_char(d: nat) -> char {
    if d == 0 {
        '0'
    } else if d == 1 {
        '1'
    } else if d == 2 {
        '2'
    } else if d == 3 {
        '3'
    } else if d == 4 {
        '4'
    } else if d == 5 {
        '5'
    } else if d == 6 {
        '6'
    } else if d == 7 {
        '7'
    } else if d == 8 {
        '8'
    } else {
        '9'
    }
}

/// The decimal notation of `n`: no sign, no leading zero, "0" for zero.
pub open spec fn decimal(n: nat) -> Seq<char>
    decreases n,
{
    if n < 10 {
        seq![digit_char(n)]
    } else {
        decimal(n / 10).push(digit_char(n % 10))
    }
}

/// The number of binary digits of `n`, counting zero as one digit.
pub open spec fn bit_len(n: nat) -> nat
    decreases n,
{
    if n <= 1 {
        1
    } else {
        bit_len(n / 2) + 1
    }
}

/// Bitwise exclusive or of two naturals.
pub open spec fn nat_xor(a: nat, b: nat) -> nat
    decreases a + b,
{
    if a == 0 {
        b
    } else if b == 0 {
        a
    } else {
        2 * nat_xor(a / 2, b / 2) + (a % 2 + b % 2) % 2
    }
}

/// `n` is prime: at least 2, and no number from 2 to `n - 1` divides it.
pub open spec fn is_prime_number(n: nat) -> bool {
    n >= 2 && forall|d: nat| 2 <= d < n ==> #[trigger] (n % d) != 0
}

/// A natural number of any size, held as big-endian bytes.
///
/// The arithmetic on it is done by GMP; the byte form is how values travel
/// between the library and GMP.
#[derive(Debug)]
pub struct BigNat {
    bytes: Vec<u8>,
}

impl View for BigNat {
    type V = nat;

    closed spec fn view(&self) -> nat {
        be_value(self.bytes@)
    }
}

impl Clone for BigNat {
    fn clone(&self) -> (r: BigNat)
        ensures
            r@ == self@,
    {
        let bytes = self.bytes.clone();
        proof {
            assert(bytes@ =~= self.bytes@);
        }
        BigNat { bytes }
    }
}

impl BigNat {
    /// The number `v`.
    pub fn from_u64(v: u64) -> (r: BigNat)
        ensures
            r@ == v as nat,
    {
        from_u64(v)
    }

    /// The value, if it fits in a word.
    pub fn to_u64(&self) -> (r: Option<u64>)
        ensures
            self@ <= u64::MAX ==> r == Some(self@ as u64),
            self@ > u64::MAX ==> r is None,
    {
        to_u64(self)
    }

    /// The decimal notation.
    pub fn to_decimal(&self) -> (r: String)
        ensures
            r@ == decimal(self@),
    {
        to_decimal(self)
    }
}

/// Relies on `Mpz::from(u64)`: the value is the word itself.
#[verifier::external_body]
pub(crate) fn from_u64(v: u64) -> (r: BigNat)
    ensures
        r@ == v as nat,
{
    BigNat { bytes: Vec::<u8>::from(&Mpz::from(v)) }
}

/// Relies on `Option<u64>::from(&Mpz)`: `Some` exactly when the value fits in a word.
#[verifier::external_body]
pub(crate) fn to_u64(n: &BigNat) -> (r: Option<u64>)
    ensures
        n@ <= u64::MAX ==> r == Some(n@ as u64),
        n@ > u64::MAX ==> r is None,
{
    Option::<u64>::from(&Mpz::from(n.bytes.as_slice()))
}

/// Relies on `Shl<usize> for &Mpz` (`mpz_mul_2exp`): multiplies by `2^k`.
#[verifier::external_body]
pub(crate) fn shl(n: &BigNat, k: usize) -> (r: BigNat)
    ensures
        r@ == n@ * pow2(k as nat),
{
    BigNat { bytes: Vec::<u8>::from(&(&Mpz::from(n.bytes.as_slice()) << k)) }
}

/// Relies on `Shr<usize> for &Mpz` (`mpz_fdiv_q_2exp`): divides by `2^k`, rounding down.
#[verifier::external_body]
pub(crate) fn shr(n: &BigNat, k: usize) -> (r: BigNat)
    ensures
        r@ == n@ / pow2(k as nat),
{
    BigNat { bytes: Vec::<u8>::from(&(&Mpz::from(n.bytes.as_slice()) >> k)) }
}

/// Relies on `Add<u64> for Mpz` (`mpz_add_ui`).
#[verifier::external_body]
pub(crate) fn add_u64(n: &BigNat, k: u64) -> (r: BigNat)
    ensures
        r@ == n@ + k,
{
    BigNat { bytes: Vec::<u8>::from(&(Mpz::from(n.bytes.as_slice()) + k)) }
}

/// Relies on `Sub<u64> for Mpz` (`mpz_sub_ui`); the difference is not negative here.
#[verifier::external_body]
pub(crate) fn sub_u64(n: &BigNat, k: u64) -> (r: BigNat)
    requires
        n@ >= k,
    ensures
        r@ == n@ - k,
{
    BigNat { bytes: Vec::<u8>::from(&(Mpz::from(n.bytes.as_slice()) - k)) }
}

/// Relies on `BitXor for &Mpz` (`mpz_xor`).
#[verifier::external_body]
pub(crate) fn xor(a: &BigNat, b: &BigNat) -> (r: BigNat)
    ensures
        r@ == nat_xor(a@, b@),
{
    let x = Mpz::from(a.bytes.as_slice());
    let y = Mpz::from(b.bytes.as_slice());
    BigNat { bytes: Vec::<u8>::from(&(&x ^ &y)) }
}

/// Relies on `Mpz::modulus` (`mpz_mod`): the non-negative remainder; it panics on a zero modulus.
#[verifier::external_body]
pub(crate) fn modulus(n: &BigNat, m: &BigNat) -> (r: BigNat)
    requires
        m@ > 0,
    ensures
        r@ == n@ % m@,
{
    let x = Mpz::from(n.bytes.as_slice());
    BigNat { bytes: Vec::<u8>::from(&x.modulus(&Mpz::from(m.bytes.as_slice()))) }
}

/// Relies on `Mpz::powm` (`mpz_powm`): `b^e mod m`; a zero modulus divides by zero.
#[verifier::external_body]
pub(crate) fn powm(b: &BigNat, e: &BigNat, m: &BigNat) -> (r: BigNat)
    requires
        m@ > 0,
    ensures
        r@ == pow(b@ as int, e@) % (m@ as int),
{
    let x = Mpz::from(b.bytes.as_slice());
    let y = Mpz::from(e.bytes.as_slice());
    BigNat { bytes: Vec::<u8>::from(&x.powm(&y, &Mpz::from(m.bytes.as_slice()))) }
}

/// Relies on `PartialEq for Mpz` (`mpz_cmp`): equal values.
#[verifier::external_body]
pub(crate) fn same_value(a: &BigNat, b: &BigNat) -> (r: bool)
    ensures
        r == (a@ == b@),
{
    Mpz::from(a.bytes.as_slice()) == Mpz::from(b.bytes.as_slice())
}

/// Relies on `Mpz::bit_length` (`mpz_sizeinbase(n, 2)`, exact in base 2, 1 for zero).
#[verifier::external_body]
pub(crate) fn bit_length(n: &BigNat) -> (r: usize)
    ensures
        r as nat == bit_len(n@),
{
    Mpz::from(n.bytes.as_slice()).bit_length()
}

/// Relies on `Mpz::to_str_radix(10)` (`mpz_get_str`): plain decimal digits.
#[verifier::external_body]
pub(crate) fn to_decimal(n: &BigNat) -> (r: String)
    ensures
        r@ == decimal(n@),
{
    Mpz::from(n.bytes.as_slice()).to_str_radix(10)
}

/// Relies on `Mpz::probab_prime` (`mpz_probab_prime_p`): "composite" is a
/// certain answer, so a prime is never reported composite.
#[verifier::external_body]
pub(crate) fn probab_prime(n: &BigNat, reps: i32) -> (r: bool)
    ensures
        is_prime_number(n@) ==> r,
{
    match Mpz::from(n.bytes.as_slice()).probab_prime(reps) {
        ProbabPrimeResult::Prime => true,
        ProbabPrimeResult::ProbablyPrime => true,
        ProbabPrimeResult::NotPrime => false,
    }
}

/// Relies on `Mpz::nextprime` (`mpz_nextprime`): a probable prime greater
/// than `n`.
#[verifier::external_body]
pub(crate) fn next_prime(n: &BigNat) -> (r: BigNat)
    ensures
        r@ > n@,
{
    BigNat { bytes: Vec::<u8>::from(&Mpz::from(n.bytes.as_slice()).nextprime()) }
}

/// GMP's random state, seen from here only as a value to pass along.
#[verifier::external_type_specification]
#[verifier::external_body]
pub struct ExRandState(RandState);

/// Relies on `RandState::new` (`gmp_randinit_default`).
#[verifier::external_body]
pub(crate) fn new_rand_state() -> (r: RandState) {
    RandState::new()
}

/// Relies on `RandState::seed` (`gmp_randseed`).
#[verifier::external_body]
pub(crate) fn seed_rand_state(state: &mut RandState, seed: &BigNat) {
    state.seed(Mpz::from(seed.bytes.as_slice()))
}

/// Relies on `RandState::urandom_2exp` (`mpz_urandomb`): uniform in `0 .. 2^k`.
#[verifier::external_body]
pub(crate) fn urandom_2exp(state: &mut RandState, k: u64) -> (r: BigNat)
    ensures
        r@ < pow2(k as nat),
{
    BigNat { bytes: Vec::<u8>::from(&state.urandom_2exp(k)) }
}

} // verus!
