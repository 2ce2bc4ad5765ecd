use cunningham::bignat::BigNat;
use cunningham::generator::{
    get_next_seed, mix_seed, AscendingPrimeGenerator, RandomPrimeGenerator, SampledGenerator,
};
use cunningham::primality::{
    digits_of_power_of_two, euler_lagrange_lifchitz, fermat, is_prime, is_prime_with_factoring,
    log2_floor_of, primality_checks, residue, PrimalityOracle,
};

fn n(v: u64) -> BigNat {
    BigNat::from_u64(v)
}

#[test]
fn verdict_is_stable() {
    let o = PrimalityOracle::for_bits(16);
    for v in [1u64, 2, 91, 97, 10201, 65537] {
        assert_eq!(o.is_probable_prime(&n(v)), o.is_probable_prime(&n(v)));
    }
}

#[test]
fn trial_division_verdicts() {
    assert!(is_prime_with_factoring(&n(2), 4));
    assert!(is_prime_with_factoring(&n(97), 4));
    assert!(!is_prime_with_factoring(&n(91), 4));
    assert!(!is_prime_with_factoring(&n(0), 4));
    assert!(!is_prime_with_factoring(&n(1), 4));
    assert!(is_prime_with_factoring(&n(101), 4));
    assert!(!is_prime_with_factoring(&n(10201), 4));
}

#[test]
fn library_verdicts() {
    assert!(is_prime(&n(101), 10));
    assert!(!is_prime(&n(1), 10));
    assert!(!is_prime(&n(561), 10));
    assert!(is_prime(&n(18446744073709551557), 10));
}

#[test]
fn fermat_verdicts() {
    assert!(fermat(&n(7)));
    assert!(fermat(&n(341)));
    assert!(!fermat(&n(9)));
    assert!(!fermat(&n(0)));
    assert!(!fermat(&n(1)));
    assert!(!fermat(&n(2)));
}

#[test]
fn lifchitz_verdicts() {
    assert!(euler_lagrange_lifchitz(&n(23), true));
    assert!(euler_lagrange_lifchitz(&n(11), true));
    assert!(euler_lagrange_lifchitz(&n(13), false));
    assert!(euler_lagrange_lifchitz(&n(17), false));
    assert!(!euler_lagrange_lifchitz(&n(7), false));
    assert!(!euler_lagrange_lifchitz(&n(13), true));
    assert!(!euler_lagrange_lifchitz(&n(0), true));
}

#[test]
fn fermat_lifchitz_oracle() {
    let o = PrimalityOracle::FermatLifchitz;
    assert!(o.is_probable_prime(&n(341)));
    assert!(o.passes_link(&n(23), true));
    assert!(!o.passes_link(&n(23), false));
}

#[test]
fn checks_and_oracle_for_bits() {
    assert_eq!(log2_floor_of(1), 0);
    assert_eq!(log2_floor_of(16), 4);
    assert_eq!(log2_floor_of(255), 7);
    assert_eq!(digits_of_power_of_two(16), 5);
    assert_eq!(digits_of_power_of_two(0), 1);
    assert_eq!(digits_of_power_of_two(128), 39);
    assert_eq!(primality_checks(16), 4);
    assert_eq!(primality_checks(106), 6);
    assert_eq!(primality_checks(107), 12);
    assert_eq!(primality_checks(128), 14);
    assert_eq!(
        PrimalityOracle::for_bits(16),
        PrimalityOracle::Library { checks: 4, trial_division: true }
    );
    assert_eq!(
        PrimalityOracle::for_bits(256),
        PrimalityOracle::Library { checks: 16, trial_division: false }
    );
}

#[test]
fn residues() {
    assert_eq!(residue(&n(95), 3), 2);
    assert_eq!(residue(&n(2), 2), 0);
    assert_eq!(residue(&n(u64::MAX), 8), 7);
}

#[test]
fn decimal_notation() {
    assert_eq!(n(0).to_decimal(), "0");
    assert_eq!(n(1234567890123).to_decimal(), "1234567890123");
    assert_eq!(n(u64::MAX).to_u64(), Some(u64::MAX));
}

#[test]
fn ascending_generator_steps() {
    let mut g = AscendingPrimeGenerator::starting_after(n(7));
    assert_eq!(g.nextprime().to_u64(), Some(11));
    assert_eq!(g.nextprime().to_u64(), Some(13));
    let mut g = AscendingPrimeGenerator::make(16);
    assert_eq!(g.nextprime().to_u64(), Some(32771));
}

#[test]
fn random_generator_stays_in_range() {
    let mut g = RandomPrimeGenerator::make(16, n(42));
    for _ in 0..20 {
        let p = g.nextprime().to_u64().unwrap();
        assert!(p >= 2 && p < 65536 + 100);
        assert!(is_prime(&n(p), 20));
    }
    let mut s = SampledGenerator::make(8, n(42));
    for _ in 0..20 {
        let x = s.next_candidate().to_u64().unwrap();
        assert!(x >= 1 && x <= 256);
    }
}

#[test]
fn seeds_are_produced() {
    let a = get_next_seed();
    let b = get_next_seed();
    assert!(a.to_decimal().len() >= 1);
    assert!(b.to_decimal().len() >= 1);
}

#[test]
fn seed_mixing_is_shift_and_xor() {
    let r = mix_seed(&vec![1, 3, 5], &vec![2, 4]);
    // ((1 << 2) ^ 3) = 7; (7 << 4) ^ 5 = 117
    assert_eq!(r.to_u64(), Some(117));
    let r = mix_seed(&vec![u64::MAX, 0], &vec![8]);
    assert_eq!(r.to_decimal(), "4722366482869645213440");
    assert_eq!(mix_seed(&vec![9], &vec![]).to_u64(), Some(9));
}
