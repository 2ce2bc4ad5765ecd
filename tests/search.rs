use cunningham::bignat::BigNat;
use cunningham::chain::{CunninghamChain, PrimeCoinChain, SearchRequest, MAX_CHAIN_LENGTH};
use cunningham::coordinator::RaceTally;
use cunningham::findings::KnownChainRegistry;
use cunningham::generator::{AscendingPrimeGenerator, SeedSource};
use cunningham::kind::{CunninghamError, CunninghamKind};
use cunningham::primality::PrimalityOracle;

fn oracle16() -> PrimalityOracle {
    PrimalityOracle::for_bits(16)
}

fn texts(v: &[&str]) -> Vec<String> {
    v.iter().map(|s| s.to_string()).collect()
}

fn values(c: &CunninghamChain) -> Vec<u64> {
    c.numbers().iter().map(|n| n.to_u64().unwrap()).collect()
}

#[test]
fn first_kind_from_seed_two() {
    let c = CunninghamChain::from_seed(CunninghamKind::FIRST, &oracle16(), &BigNat::from_u64(2))
        .unwrap();
    assert_eq!(c.origin(), "2");
    assert_eq!(c.members(), &texts(&["2", "5", "11", "23", "47"]));
    assert_eq!(c.length(), 5);
    assert!(c.length() >= 2);
    assert_eq!(c.bits(), 2);
    assert_eq!(c.kind(), CunninghamKind::FIRST);
}

#[test]
fn second_kind_from_seed_seven() {
    let c = CunninghamChain::from_seed(CunninghamKind::SECOND, &oracle16(), &BigNat::from_u64(7))
        .unwrap();
    assert_eq!(c.length(), 2);
    assert_eq!(c.origin(), "7");
    assert_eq!(c.members(), &texts(&["7", "13"]));
}

#[test]
fn bi_twin_from_seed_seven() {
    let c = CunninghamChain::from_seed(CunninghamKind::BITWIN, &oracle16(), &BigNat::from_u64(7))
        .unwrap();
    assert_eq!(c.length(), 2);
    assert_eq!(c.origin(), "6");
    assert_eq!(values(&c), vec![6, 12]);
    assert_eq!(c.members(), &texts(&["{5, 7}", "{11, 13}"]));
    assert_eq!(c.bits(), 3);
}

#[test]
fn bi_twin_anchor_above_the_seed() {
    // 3 - 2 = 1 is not prime, 3 + 2 = 5 is: the anchor is 4, and 8 has 7 and 9.
    let c = CunninghamChain::from_seed(CunninghamKind::BITWIN, &oracle16(), &BigNat::from_u64(3))
        .unwrap();
    assert_eq!(values(&c), vec![4]);
    assert_eq!(c.members(), &texts(&["{3, 5}"]));
}

#[test]
fn downward_growth_reaches_three() {
    // 15 is a multiple of 3, so 7 grows only downward: 3, 7.
    let c = CunninghamChain::from_seed(CunninghamKind::FIRST, &oracle16(), &BigNat::from_u64(7))
        .unwrap();
    assert_eq!(values(&c), vec![3, 7]);
    let c = CunninghamChain::from_seed(CunninghamKind::SECOND, &oracle16(), &BigNat::from_u64(5))
        .unwrap();
    assert_eq!(values(&c), vec![2, 3, 5]);
}

#[test]
fn composite_seed_is_not_admitted() {
    let o = oracle16();
    assert!(CunninghamChain::from_seed(CunninghamKind::FIRST, &o, &BigNat::from_u64(9)).is_none());
    assert!(CunninghamChain::from_seed(CunninghamKind::BITWIN, &o, &BigNat::from_u64(23)).is_none());
}

#[test]
fn first_kind_links_and_residues() {
    let c = CunninghamChain::from_seed(CunninghamKind::FIRST, &oracle16(), &BigNat::from_u64(41))
        .unwrap();
    let v = values(&c);
    assert_eq!(v, vec![41, 83, 167]);
    for i in 0..v.len() - 1 {
        assert_eq!(v[i + 1], 2 * v[i] + 1);
    }
    for x in &v[1..] {
        assert_eq!(x % 3, 2);
    }
}

#[test]
fn second_kind_links_and_residues() {
    let c = CunninghamChain::from_seed(CunninghamKind::SECOND, &oracle16(), &BigNat::from_u64(1531))
        .unwrap();
    let v = values(&c);
    assert_eq!(v, vec![1531, 3061, 6121, 12241, 24481]);
    for i in 0..v.len() - 1 {
        assert_eq!(v[i + 1], 2 * v[i] - 1);
    }
    for x in &v[1..] {
        assert_eq!(x % 3, 1);
    }
}

#[test]
fn bi_twin_links_and_pairs() {
    let o = oracle16();
    let c = CunninghamChain::from_seed(CunninghamKind::BITWIN, &o, &BigNat::from_u64(31))
        .unwrap();
    let v = values(&c);
    assert_eq!(v, vec![30, 60]);
    for i in 0..v.len() - 1 {
        assert_eq!(v[i + 1], 2 * v[i]);
    }
    for x in &v {
        assert!(o.is_probable_prime(&BigNat::from_u64(x - 1)));
        assert!(o.is_probable_prime(&BigNat::from_u64(x + 1)));
    }
}

#[test]
fn invalid_kind_fails_before_search() {
    match SearchRequest::new(16, 2, 4) {
        Err(CunninghamError::InvalidKind(m)) => {
            assert_eq!(m, "Invalid kind selected. Cannot be 4")
        }
        _ => panic!("kind 4 must be refused"),
    }
}

#[test]
fn from_u32_maps_selectors() {
    assert_eq!(CunninghamKind::from_u32(1), Ok(CunninghamKind::FIRST));
    assert_eq!(CunninghamKind::from_u32(2), Ok(CunninghamKind::SECOND));
    assert_eq!(CunninghamKind::from_u32(3), Ok(CunninghamKind::BITWIN));
    assert!(matches!(CunninghamKind::from_u32(0), Err(CunninghamError::InvalidKind(_))));
}

#[test]
fn zero_lengths_are_refused() {
    assert_eq!(SearchRequest::new(0, 2, 1).err(), Some(CunninghamError::InvalidRequest));
    assert_eq!(SearchRequest::new(16, 0, 1).err(), Some(CunninghamError::InvalidRequest));
    let r = SearchRequest::new(16, 2, 3).ok().unwrap();
    assert_eq!((r.bits, r.min_length, r.kind), (16, 2, CunninghamKind::BITWIN));
}

fn first_request(min_length: usize) -> SearchRequest {
    SearchRequest::new(16, min_length, 1).ok().unwrap()
}

#[test]
fn known_origin_is_skipped() {
    let o = oracle16();
    let req = first_request(3);
    let mut source = SeedSource::Ascending(AscendingPrimeGenerator::starting_after(BigNat::from_u64(1)));
    let c = CunninghamChain::find(&req, &mut source, &o, &KnownChainRegistry::empty(), 100).unwrap();
    assert_eq!(c.origin(), "2");

    let registry = KnownChainRegistry::new(texts(&["2"]), vec![], vec![]);
    let mut source = SeedSource::Ascending(AscendingPrimeGenerator::starting_after(BigNat::from_u64(1)));
    let c = CunninghamChain::find(&req, &mut source, &o, &registry, 100).unwrap();
    assert_eq!(c.origin(), "41");
    assert_eq!(c.members(), &texts(&["41", "83", "167"]));
    assert!(c.length() >= 3);
}

#[test]
fn known_origin_of_another_kind_is_not_skipped() {
    let registry = KnownChainRegistry::new(vec![], texts(&["2"]), texts(&["2"]));
    let mut source = SeedSource::Ascending(AscendingPrimeGenerator::starting_after(BigNat::from_u64(1)));
    let c = CunninghamChain::find(&first_request(3), &mut source, &oracle16(), &registry, 100)
        .unwrap();
    assert_eq!(c.origin(), "2");
}

#[test]
fn registry_lookup() {
    let p = KnownChainRegistry::published();
    assert!(p.is_known(&BigNat::from_u64(6400306986398717280), CunninghamKind::BITWIN));
    assert!(!p.is_known(&BigNat::from_u64(6400306986398717280), CunninghamKind::FIRST));
    assert!(p.is_known(&BigNat::from_u64(8200568588273131201), CunninghamKind::SECOND));
    assert!(!p.is_known(&BigNat::from_u64(41), CunninghamKind::FIRST));
}

#[test]
fn ascending_search_is_repeatable() {
    let o = oracle16();
    let req = SearchRequest::new(16, 3, 1).ok().unwrap();
    let r = KnownChainRegistry::published();
    let a = CunninghamChain::search_ascending(&req, &o, &r, 100000).unwrap();
    let b = CunninghamChain::search_ascending(&req, &o, &r, 100000).unwrap();
    assert_eq!(a.members(), b.members());
    assert_eq!(a.origin(), b.origin());
    assert!(a.length() >= 3);
}

#[test]
fn ascending_search_gives_up_past_the_bit_bound() {
    let req = SearchRequest::new(2, 30, 1).ok().unwrap();
    let r = CunninghamChain::search_ascending(&req, &PrimalityOracle::for_bits(2),
        &KnownChainRegistry::empty(), 100000);
    assert_eq!(r.err(), Some(CunninghamError::ChainNotFound));
}

#[test]
fn empty_budget_draws_nothing() {
    let r = CunninghamChain::search_ascending(&first_request(2), &oracle16(),
        &KnownChainRegistry::empty(), 0);
    assert_eq!(r.err(), Some(CunninghamError::SeedBudgetSpent));
}

#[test]
fn random_search_finds_a_linked_chain() {
    let req = SearchRequest::new(16, 2, 2).ok().unwrap();
    let c = CunninghamChain::search_random(&req, &oracle16(), &KnownChainRegistry::empty(),
        BigNat::from_u64(12345), 100000).unwrap();
    let v = values(&c);
    assert!(v.len() >= 2);
    for i in 0..v.len() - 1 {
        assert_eq!(v[i + 1], 2 * v[i] - 1);
    }
    assert_eq!(c.origin(), &v[0].to_string());
}

#[test]
fn prime_coin_search_finds_a_bi_twin_chain() {
    let c = PrimeCoinChain::make(16, 2, CunninghamKind::BITWIN, BigNat::from_u64(99),
        &KnownChainRegistry::empty(), 1000000).unwrap();
    let v = values(&c);
    assert!(v.len() >= 2);
    assert_eq!(c.kind(), CunninghamKind::BITWIN);
    for i in 0..v.len() - 1 {
        assert_eq!(v[i + 1], 2 * v[i]);
    }
}

#[test]
fn prime_coin_search_keeps_the_second_kind() {
    let c = PrimeCoinChain::make(16, 2, CunninghamKind::SECOND, BigNat::from_u64(7),
        &KnownChainRegistry::empty(), 1000000).unwrap();
    assert_eq!(c.kind(), CunninghamKind::SECOND);
    assert!(c.length() >= 2);
}

#[test]
fn race_first_chain_wins() {
    let mut t = RaceTally::new(3);
    assert!(t.record(Err(CunninghamError::ChainNotFound)).is_none());
    let c = CunninghamChain::from_seed(CunninghamKind::SECOND, &oracle16(), &BigNat::from_u64(7))
        .unwrap();
    let r = t.record(Ok(c)).unwrap().unwrap();
    assert_eq!(r.origin(), "7");
    assert!(t.decided());
    assert!(t.record(Err(CunninghamError::ChainNotFound)).is_none());
}

#[test]
fn race_fails_when_every_worker_fails() {
    let mut t = RaceTally::new(2);
    assert!(t.record(Err(CunninghamError::ChainNotFound)).is_none());
    assert!(!t.decided());
    let r = t.record(Err(CunninghamError::SeedBudgetSpent)).unwrap();
    assert_eq!(r.err(), Some(CunninghamError::ChainNotFound));
}

#[test]
fn chain_length_cap_is_large() {
    assert!(MAX_CHAIN_LENGTH >= 64);
}

#[test]
fn prime_coin_empty_budget() {
    let r = PrimeCoinChain::make(16, 2, CunninghamKind::FIRST, BigNat::from_u64(5),
        &KnownChainRegistry::empty(), 0);
    assert_eq!(r.err(), Some(CunninghamError::SeedBudgetSpent));
}

#[test]
fn members_ascend_from_the_origin() {
    let c = CunninghamChain::from_seed(CunninghamKind::SECOND, &oracle16(), &BigNat::from_u64(5))
        .unwrap();
    let v = values(&c);
    for i in 0..v.len() - 1 {
        assert!(v[i] <= v[i + 1]);
    }
    assert_eq!(c.origin(), &v[0].to_string());
}

#[test]
fn try_seed_applies_length_and_registry() {
    let o = oracle16();
    let req = first_request(3);
    let empty = KnownChainRegistry::empty();
    let c = CunninghamChain::try_seed(&req, &o, &empty, &BigNat::from_u64(41)).unwrap();
    assert_eq!(c.members(), &texts(&["41", "83", "167"]));
    assert!(CunninghamChain::try_seed(&req, &o, &empty, &BigNat::from_u64(7)).is_none());
    let known = KnownChainRegistry::new(texts(&["41"]), vec![], vec![]);
    assert!(CunninghamChain::try_seed(&req, &o, &known, &BigNat::from_u64(41)).is_none());
    assert!(CunninghamChain::try_seed(&req, &o, &empty, &BigNat::from_u64(9)).is_none());
}

#[test]
fn resumed_rounds_end_like_one_search() {
    let req = SearchRequest::new(2, 30, 1).ok().unwrap();
    let o = PrimalityOracle::for_bits(2);
    let r = KnownChainRegistry::empty();
    let mut source = SeedSource::Ascending(AscendingPrimeGenerator::make(2));
    let mut rounds = 0;
    let outcome = loop {
        rounds += 1;
        match CunninghamChain::find(&req, &mut source, &o, &r, 3) {
            Err(CunninghamError::SeedBudgetSpent) => continue,
            other => break other,
        }
    };
    assert!(rounds > 1);
    assert_eq!(outcome.err(), Some(CunninghamError::ChainNotFound));
    let mut once = SeedSource::Ascending(AscendingPrimeGenerator::make(2));
    assert_eq!(
        CunninghamChain::find(&req, &mut once, &o, &r, 1000).err(),
        Some(CunninghamError::ChainNotFound)
    );
    assert_eq!(source.ascending_position().unwrap().to_u64(),
        once.ascending_position().unwrap().to_u64());
}

#[test]
fn random_and_sampled_zero_budget() {
    let req = first_request(2);
    let r = CunninghamChain::search_random(&req, &oracle16(), &KnownChainRegistry::empty(),
        BigNat::from_u64(3), 0);
    assert_eq!(r.err(), Some(CunninghamError::SeedBudgetSpent));
}

#[test]
fn accept_chain_checks_length_and_registry() {
    let o = oracle16();
    let c = CunninghamChain::from_seed(CunninghamKind::SECOND, &o, &BigNat::from_u64(7)).unwrap();
    let known = KnownChainRegistry::new(vec![], texts(&["7"]), vec![]);
    assert!(CunninghamChain::accept_chain(&SearchRequest::new(16, 2, 2).ok().unwrap(), &known, c)
        .is_none());
    let c = CunninghamChain::from_seed(CunninghamKind::SECOND, &o, &BigNat::from_u64(7)).unwrap();
    assert!(CunninghamChain::accept_chain(&SearchRequest::new(16, 3, 2).ok().unwrap(),
        &KnownChainRegistry::empty(), c).is_none());
    let c = CunninghamChain::from_seed(CunninghamKind::SECOND, &o, &BigNat::from_u64(7)).unwrap();
    let d = CunninghamChain::accept_chain(&SearchRequest::new(16, 2, 2).ok().unwrap(),
        &KnownChainRegistry::empty(), c).unwrap();
    assert_eq!(d.origin(), "7");
}

#[test]
fn chain_not_found_follows_an_oversized_seed() {
    let req = SearchRequest::new(2, 30, 1).ok().unwrap();
    let mut source = SeedSource::Ascending(AscendingPrimeGenerator::make(2));
    let r = CunninghamChain::find(&req, &mut source, &PrimalityOracle::for_bits(2),
        &KnownChainRegistry::empty(), 1000);
    assert_eq!(r.err(), Some(CunninghamError::ChainNotFound));
    let last = source.ascending_position().unwrap().to_u64().unwrap();
    assert!(last >= 64);
}

#[test]
fn candidates_below_two_are_refused() {
    let o = oracle16();
    // Second kind from 3: 2 is prepended, and nothing below 2 after it.
    let c = CunninghamChain::from_seed(CunninghamKind::SECOND, &o, &BigNat::from_u64(3)).unwrap();
    assert_eq!(values(&c), vec![2, 3]);
    let c = CunninghamChain::from_seed(CunninghamKind::FIRST, &o, &BigNat::from_u64(3)).unwrap();
    assert_eq!(values(&c), vec![3]);
}
