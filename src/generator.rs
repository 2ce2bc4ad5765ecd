use vstd::arithmetic::power2::pow2;
use vstd::prelude::*;

use gmp::rand::RandState;

use crate::bignat::{
    BigNat, add_u64, from_u64, nat_xor, new_rand_state, next_prime,
    seed_rand_state, shl, sub_u64, urandom_2exp, xor,
};

verus! {

pub assume_specification<T>[ rand::random::<T> ]() -> (r: T)
    where
        rand::distributions::Standard: rand::distributions::Distribution<T>,
;

/// Yields the probable primes in increasing order, starting above
/// `2^(bits-1) - 1`.
pub struct AscendingPrimeGenerator {
    current_seed: BigNat,
}

impl AscendingPrimeGenerator {
    /// The last value handed out (or the starting point).
    pub closed spec fn current(&self) -> nat {
        self.current_seed@
    }

    /// A generator whose first seed is the first probable prime of `bits` bits
    /// or more.
    pub fn make(bits: usize) -> (r: AscendingPrimeGenerator)
        requires
            bits >= 1,
        ensures
            r.current() == pow2((bits - 1) as nat) - 1,
    {
        let top = shl(&from_u64(1), bits - 1);
        proof {
            vstd::arithmetic::power2::lemma_pow2_pos((bits - 1) as nat);
        }
        AscendingPrimeGenerator { current_seed: sub_u64(&top, 1) }
    }

    /// A generator whose first seed is the first probable prime above `start`.
    pub fn starting_after(start: BigNat) -> (r: AscendingPrimeGenerator)
        ensures
            r.current() == start@,
    {
        AscendingPrimeGenerator { current_seed: start }
    }

    /// Advances to the next probable prime and returns it.
    pub fn nextprime(&mut self) -> (r: BigNat)
        ensures
            r@ > old(self).current(),
            final(self).current() == r@,
    {
        let temp = next_prime(&self.current_seed);
        self.current_seed = temp.clone();
        temp
    }
}

/// Yields the probable prime that follows a uniformly drawn number of at most
/// `bits` bits.
pub struct RandomPrimeGenerator {
    rand_state: RandState,
    bits: u64,
    last: BigNat,
    base: BigNat,
}

impl RandomPrimeGenerator {
    /// The bit length of the numbers drawn.
    pub closed spec fn bits(&self) -> nat {
        self.bits as nat
    }

    /// The last value handed out (zero before the first).
    pub closed spec fn last_drawn(&self) -> nat {
        self.last@
    }

    /// The random number that the last value handed out follows.
    pub closed spec fn last_base(&self) -> nat {
        self.base@
    }

    /// A generator drawing `bits`-bit numbers from a random state seeded with `seed`.
    pub fn make(bits: usize, seed: BigNat) -> (r: RandomPrimeGenerator)
        ensures
            r.bits() == bits as nat,
    {
        let mut rand_state = new_rand_state();
        seed_rand_state(&mut rand_state, &seed);
        RandomPrimeGenerator { rand_state, bits: bits as u64, last: from_u64(0), base: from_u64(0) }
    }

    /// Draws a number below `2^bits` and returns the probable prime after it.
    pub fn nextprime(&mut self) -> (r: BigNat)
        ensures
            final(self).bits() == old(self).bits(),
            final(self).last_drawn() == r@,
            final(self).last_base() < pow2(old(self).bits()),
            r@ > final(self).last_base(),
    {
        let x = urandom_2exp(&mut self.rand_state, self.bits);
        let r = next_prime(&x);
        self.last = r.clone();
        self.base = x;
        r
    }
}

/// Yields one more than a uniformly drawn number of at most `bits` bits,
/// prime or not.
pub struct SampledGenerator {
    rand_state: RandState,
    bits: u64,
    last: BigNat,
}

impl SampledGenerator {
    /// The bit length of the numbers drawn.
    pub closed spec fn bits(&self) -> nat {
        self.bits as nat
    }

    /// The last value handed out (zero before the first).
    pub closed spec fn last_drawn(&self) -> nat {
        self.last@
    }

    /// A generator drawing `bits`-bit numbers from a random state seeded with `seed`.
    pub fn make(bits: usize, seed: BigNat) -> (r: SampledGenerator)
        ensures
            r.bits() == bits as nat,
    {
        let mut rand_state = new_rand_state();
        seed_rand_state(&mut rand_state, &seed);
        SampledGenerator { rand_state, bits: bits as u64, last: from_u64(0) }
    }

    /// Draws a number below `2^bits` and returns its successor.
    pub fn next_candidate(&mut self) -> (r: BigNat)
        ensures
            final(self).bits() == old(self).bits(),
            final(self).last_drawn() == r@,
            1 <= r@ <= pow2(old(self).bits()),
    {
        let x = urandom_2exp(&mut self.rand_state, self.bits);
        let r = add_u64(&x, 1);
        self.last = r.clone();
        r
    }
}

/// Where a search takes its seeds from.
pub enum SeedSource {
    Ascending(AscendingPrimeGenerator),
    Random(RandomPrimeGenerator),
    Sampled(SampledGenerator),
}

impl SeedSource {
    /// The seed handed out last: an ascending generator's position, or a
    /// random generator's last draw.
    pub open spec fn last_seed(&self) -> nat {
        match self {
            SeedSource::Ascending(g) => g.current(),
            SeedSource::Random(g) => g.last_drawn(),
            SeedSource::Sampled(g) => g.last_drawn(),
        }
    }

    /// The position of an ascending generator; `None` for the other sources.
    pub fn ascending_position(&self) -> (r: Option<BigNat>)
        ensures
            r is Some <==> *self is Ascending,
            r matches Some(v) ==> v@ == self->Ascending_0.current(),
    {
        match self {
            SeedSource::Ascending(g) => Some(g.current_seed.clone()),
            _ => None,
        }
    }

    /// The next seed.
    pub fn next_seed(&mut self) -> (r: BigNat)
        ensures
            final(self).last_seed() == r@,
            *old(self) is Ascending ==> (*final(self) is Ascending
                && r@ > old(self)->Ascending_0.current()),
            *old(self) is Random ==> (*final(self) is Random && final(self)->Random_0.bits()
                == old(self)->Random_0.bits() && final(self)->Random_0.last_base() < pow2(
                old(self)->Random_0.bits(),
            ) && r@ > final(self)->Random_0.last_base()),
            *old(self) is Sampled ==> (*final(self) is Sampled && final(self)->Sampled_0.bits()
                == old(self)->Sampled_0.bits() && 1 <= r@ <= pow2(old(self)->Sampled_0.bits())),
    {
        match self {
            SeedSource::Ascending(g) => g.nextprime(),
            SeedSource::Random(g) => g.nextprime(),
            SeedSource::Sampled(g) => g.next_candidate(),
        }
    }
}

/// The number that mixing gives: `words[0]`, then for each `i` below `n`,
/// shifted left by `shifts[i]` bits and combined with `words[i + 1]` by
/// exclusive or.
pub open spec fn seed_mix(words: Seq<u64>, shifts: Seq<u8>, n: int) -> nat
    decreases n,
{
    if n <= 0 {
        words[0] as nat
    } else {
        nat_xor(seed_mix(words, shifts, n - 1) * pow2(shifts[n - 1] as nat), words[n] as nat)
    }
}

/// Exclusive or keeps numbers below a power of two below it.
proof fn lemma_xor_below(a: nat, b: nat, k: nat)
    requires
        a < pow2(k),
        b < pow2(k),
    ensures
        nat_xor(a, b) < pow2(k),
    decreases a + b,
{
    if a != 0 && b != 0 {
        if k == 0 {
            vstd::arithmetic::power2::lemma2_to64();
        } else {
            vstd::arithmetic::power2::lemma_pow2_unfold(k);
            lemma_xor_below(a / 2, b / 2, (k - 1) as nat);
        }
    }
}

/// One mixing step keeps the value below `2^(m + 255)` when it was below
/// `2^m`, for `m` of at least 64.
proof fn lemma_mix_step_below(acc: nat, m: nat, shift: u8, word: u64)
    requires
        acc < pow2(m),
        m >= 64,
    ensures
        nat_xor(acc * pow2(shift as nat), word as nat) < pow2(m + 255),
{
    let s = shift as nat;
    vstd::arithmetic::power2::lemma_pow2_pos(s);
    vstd::arithmetic::mul::lemma_mul_strict_inequality(acc as int, pow2(m) as int, pow2(s) as int);
    vstd::arithmetic::power2::lemma_pow2_adds(m, s);
    if s < 255 {
        vstd::arithmetic::power2::lemma_pow2_strictly_increases(m + s, m + 255);
    }
    vstd::arithmetic::power2::lemma2_to64();
    vstd::arithmetic::power2::lemma_pow2_strictly_increases(64, m + 255);
    lemma_xor_below(acc * pow2(s), word as nat, m + 255);
}

/// Mixes random words into a seed: starts from `words[0]`, then for each
/// shift, shifts left by it and combines with the next word by exclusive or.
pub fn mix_seed(words: &Vec<u64>, shifts: &Vec<u8>) -> (r: BigNat)
    requires
        words@.len() == shifts@.len() + 1,
    ensures
        r@ == seed_mix(words@, shifts@, shifts@.len() as int),
        r@ < pow2((64 + 255 * shifts@.len()) as nat),
{
    let mut acc = from_u64(words[0]);
    proof {
        vstd::arithmetic::power2::lemma2_to64();
    }
    let mut i: usize = 0;
    while i < shifts.len()
        invariant
            words@.len() == shifts@.len() + 1,
            i <= shifts@.len(),
            acc@ == seed_mix(words@, shifts@, i as int),
            acc@ < pow2((64 + 255 * i) as nat),
        decreases shifts.len() - i,
    {
        proof {
            lemma_mix_step_below(acc@, (64 + 255 * i) as nat, shifts@[i as int], words@[i + 1]);
            assert((64 + 255 * i) + 255 == 64 + 255 * (i + 1)) by (nonlinear_arith);
        }
        acc = xor(&shl(&acc, shifts[i] as usize), &from_u64(words[i + 1]));
        i = i + 1;
    }
    acc
}

/// A fresh seed for a random generator: five random words mixed with four
/// random shifts of at most 255 bits, so below `2^1084`.
pub fn get_next_seed() -> (r: BigNat)
    ensures
        r@ < pow2(1084),
{
    let mut words: Vec<u64> = Vec::new();
    let mut shifts: Vec<u8> = Vec::new();
    words.push(rand::random::<u64>());
    let mut i: u32 = 0;
    while i < 4
        invariant
            i <= 4,
            words@.len() == i + 1,
            shifts@.len() == i,
        decreases 4 - i,
    {
        shifts.push(rand::random::<u8>());
        words.push(rand::random::<u64>());
        i = i + 1;
    }
    mix_seed(&words, &shifts)
}

} // verus!
