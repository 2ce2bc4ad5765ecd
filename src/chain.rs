use vstd::prelude::*;
use vstd::string::*;

use std::collections::VecDeque;

use vstd::arithmetic::power2::pow2;

use crate::bignat::{
    BigNat, add_u64, bit_len, bit_length, decimal, from_u64, shl, shr, sub_u64, to_decimal,
};
use crate::findings::KnownChainRegistry;
use crate::generator::{AscendingPrimeGenerator, RandomPrimeGenerator, SampledGenerator, SeedSource};
use crate::kind::{CunninghamError, CunninghamKind, kind_of_selector};
use crate::primality::{PrimalityOracle, at_least, residue};

verus! {

/// No chain grows beyond this many members: the most a sequence can hold.
pub const MAX_CHAIN_LENGTH: usize = usize::MAX;

/// The member that follows `b` in a chain of `kind`.
pub open spec fn next_up(kind: CunninghamKind, b: nat) -> int {
    match kind {
        CunninghamKind::FIRST => 2 * b + 1 as int,
        CunninghamKind::SECOND => 2 * b - 1 as int,
        CunninghamKind::BITWIN => 2 * b as int,
    }
}

/// Each member follows from the one before it by the rule of `kind`.
pub open spec fn linked(kind: CunninghamKind, s: Seq<nat>) -> bool {
    forall|i: int| 0 <= i < s.len() - 1 ==> #[trigger] s[i + 1] == next_up(kind, s[i])
}

/// The oracle may call `v` a probable prime, or for bi-twin chains, both
/// `v - 1` and `v + 1`.
pub open spec fn member_passes(kind: CunninghamKind, o: PrimalityOracle, v: nat) -> bool {
    match kind {
        CunninghamKind::BITWIN => v >= 1 && o.allows((v - 1) as nat, true) && o.allows(v + 1, true),
        _ => o.allows(v, true),
    }
}

/// `v` passes the oracle's test for a member reached by a link: for the
/// first kind as `2p + 1`, for the second as `2p - 1`, and for bi-twin chains
/// `v - 1` as `2p + 1` and `v + 1` as `2p - 1`.
pub open spec fn link_member_passes(kind: CunninghamKind, o: PrimalityOracle, v: nat) -> bool {
    match kind {
        CunninghamKind::FIRST => o.link_allows(v, true, true),
        CunninghamKind::SECOND => o.link_allows(v, false, true),
        CunninghamKind::BITWIN => v >= 1 && o.link_allows((v - 1) as nat, true, true)
            && o.link_allows(v + 1, false, true),
    }
}

/// Every member of `s` but the one at `a` passes the test for linked members.
pub open spec fn links_pass_except(
    kind: CunninghamKind,
    o: PrimalityOracle,
    s: Seq<nat>,
    a: int,
) -> bool {
    &&& 0 <= a < s.len()
    &&& forall|i: int|
        0 <= i < s.len() && i != a ==> #[trigger] link_member_passes(kind, o, s[i])
}

/// Every member of `s` but the one it was grown from passes the test for
/// linked members.
pub open spec fn links_pass(kind: CunninghamKind, o: PrimalityOracle, s: Seq<nat>) -> bool {
    exists|a: int| #[trigger] links_pass_except(kind, o, s, a)
}

/// Every member of `s` passes the oracle.
pub open spec fn all_pass(kind: CunninghamKind, o: PrimalityOracle, s: Seq<nat>) -> bool {
    forall|i: int| 0 <= i < s.len() ==> #[trigger] member_passes(kind, o, s[i])
}

/// Whether a chain whose last member is `b` may grow upward: the next member
/// is at least 2, has the residue modulo 3 that the kind asks for, and the
/// oracle may call it a probable prime.
pub open spec fn up_accepts(kind: CunninghamKind, o: PrimalityOracle, b: nat) -> bool {
    match kind {
        CunninghamKind::FIRST => (2 * b + 1) % 3 == 2 && o.link_allows(2 * b + 1, true, true),
        CunninghamKind::SECOND => b >= 2 && ((2 * b - 1) as nat) % 3 == 1 && o.link_allows(
            (2 * b - 1) as nat,
            false,
            true,
        ),
        CunninghamKind::BITWIN => b >= 1 && o.link_allows(2 * b + 1, false, true) && o.link_allows(
            (2 * b - 1) as nat,
            true,
            true,
        ),
    }
}

/// Whether a chain whose last member is `b` stops growing upward for a reason
/// that holds of the oracle's answers: the next member is below 2, has the
/// wrong residue modulo 3, or the oracle may call it (or, for bi-twin chains,
/// one of its neighbours) composite.
pub open spec fn up_refused(kind: CunninghamKind, o: PrimalityOracle, b: nat) -> bool {
    match kind {
        CunninghamKind::FIRST => (2 * b + 1) % 3 != 2 || o.link_allows(2 * b + 1, true, false),
        CunninghamKind::SECOND => b < 2 || ((2 * b - 1) as nat) % 3 != 1 || o.link_allows(
            (2 * b - 1) as nat,
            false,
            false,
        ),
        CunninghamKind::BITWIN => b < 1 || o.link_allows(2 * b + 1, false, false) || o.link_allows(
            (2 * b - 1) as nat,
            true,
            false,
        ),
    }
}

/// Whether a chain whose first member is `f` may grow downward: `f` is the
/// image of the halved value under the kind's rule, that value is at least 2,
/// and the oracle may call it (its neighbours, for bi-twin chains) probably prime.
pub open spec fn down_accepts(kind: CunninghamKind, o: PrimalityOracle, f: nat) -> bool {
    match kind {
        CunninghamKind::FIRST => f % 2 == 1 && f / 2 >= 2 && o.link_allows(f / 2, true, true),
        CunninghamKind::SECOND => f % 2 == 1 && (f + 1) / 2 >= 2 && o.link_allows(
            (f + 1) / 2,
            false,
            true,
        ),
        CunninghamKind::BITWIN => f % 2 == 0 && f / 2 >= 2 && o.link_allows(f / 2 + 1, false, true)
            && o.link_allows((f / 2 - 1) as nat, true, true),
    }
}

/// Whether a chain whose first member is `f` stops growing downward for a
/// reason that holds of the oracle's answers.
pub open spec fn down_refused(kind: CunninghamKind, o: PrimalityOracle, f: nat) -> bool {
    match kind {
        CunninghamKind::FIRST => f % 2 != 1 || f / 2 < 2 || o.link_allows(f / 2, true, false),
        CunninghamKind::SECOND => f % 2 != 1 || (f + 1) / 2 < 2 || o.link_allows(
            (f + 1) / 2,
            false,
            false,
        ),
        CunninghamKind::BITWIN => f % 2 != 0 || f / 2 < 2 || o.link_allows(f / 2 + 1, false, false)
            || o.link_allows((f / 2 - 1) as nat, true, false),
    }
}

/// Neither end of `s` grows, unless `s` has reached the length cap.
pub open spec fn fully_extended(kind: CunninghamKind, o: PrimalityOracle, s: Seq<nat>) -> bool {
    s.len() >= MAX_CHAIN_LENGTH || (up_refused(kind, o, s.last()) && down_refused(
        kind,
        o,
        s[0],
    ))
}

/// Each member is smaller than the next.
pub open spec fn strictly_ascending(s: Seq<nat>) -> bool {
    forall|i: int| 0 <= i < s.len() - 1 ==> #[trigger] s[i] < s[i + 1]
}

/// The member below `f` that the kind's halving rule gives.
pub open spec fn next_down(kind: CunninghamKind, f: nat) -> nat {
    match kind {
        CunninghamKind::SECOND => (f + 1) / 2,
        _ => f / 2,
    }
}

/// How a member is written: in decimal, or for bi-twin chains as the pair
/// `{n-1, n+1}`.
pub open spec fn render(kind: CunninghamKind, v: nat) -> Seq<char> {
    match kind {
        CunninghamKind::BITWIN => "{"@ + decimal((v - 1) as nat) + ", "@ + decimal(v + 1) + "}"@,
        _ => decimal(v),
    }
}

/// The values of a sequence of numbers.
pub open spec fn values_of(s: Seq<BigNat>) -> Seq<nat> {
    s.map_values(|b: BigNat| b@)
}

/// The texts of a sequence of strings.
pub open spec fn strings_of(s: Seq<String>) -> Seq<Seq<char>> {
    s.map_values(|t: String| t@)
}

/// What a chain is, apart from its representation.
pub struct ChainView {
    pub kind: CunninghamKind,
    pub bits: nat,
    pub length: nat,
    pub origin: Seq<char>,
    pub members: Seq<Seq<char>>,
    pub values: Seq<nat>,
}

impl ChainView {
    /// A non-empty chain of `kind`, linked by its rule, whose origin is its
    /// first member and whose members are written as the kind asks.
    pub open spec fn wf(self) -> bool {
        &&& self.values.len() >= 1
        &&& self.length == self.values.len()
        &&& self.members.len() == self.values.len()
        &&& self.origin == decimal(self.values[0])
        &&& self.bits == bit_len(self.values[0])
        &&& linked(self.kind, self.values)
        &&& forall|i: int|
            0 <= i < self.values.len() ==> #[trigger] self.members[i] == render(
                self.kind,
                self.values[i],
            )
    }
}

/// A chain found by the search.
#[derive(Debug)]
pub struct CunninghamChain {
    bits: usize,
    length: usize,
    kind: CunninghamKind,
    origin: String,
    chain: Vec<String>,
    numbers: Vec<BigNat>,
}

impl View for CunninghamChain {
    type V = ChainView;

    closed spec fn view(&self) -> ChainView {
        ChainView {
            kind: self.kind,
            bits: self.bits as nat,
            length: self.length as nat,
            origin: self.origin@,
            members: strings_of(self.chain@),
            values: values_of(self.numbers@),
        }
    }
}

/// What a search is asked for.
#[derive(Debug, Clone, Copy)]
pub struct SearchRequest {
    pub bits: usize,
    pub min_length: usize,
    pub kind: CunninghamKind,
}

impl SearchRequest {
    /// A request that a search can take: a positive bit length and minimum length.
    pub open spec fn wf(self) -> bool {
        self.bits >= 1 && self.min_length >= 1
    }

    /// Checks a request before any search: the kind selector first, then the
    /// two lengths.
    pub fn new(bits: usize, min_length: usize, kind: u32) -> (r: Result<
        SearchRequest,
        CunninghamError,
    >)
        ensures
            kind_of_selector(kind) is None ==> (r matches Err(CunninghamError::InvalidKind(_))),
            kind_of_selector(kind) is Some && (bits == 0 || min_length == 0) ==> r == Err::<
                SearchRequest,
                CunninghamError,
            >(CunninghamError::InvalidRequest),
            kind_of_selector(kind) is Some && bits >= 1 && min_length >= 1 ==> (r matches Ok(q)
                && q.bits == bits && q.min_length == min_length && q.kind == kind_of_selector(
                kind,
            )->0),
    {
        let k = match CunninghamKind::from_u32(kind) {
            Ok(k) => k,
            Err(e) => {
                return Err(e);
            },
        };
        if bits == 0 || min_length == 0 {
            return Err(CunninghamError::InvalidRequest);
        }
        Ok(SearchRequest { bits, min_length, kind: k })
    }
}

proof fn lemma_two()
    ensures
        vstd::arithmetic::power2::pow2(1) == 2,
{
    vstd::arithmetic::power2::lemma2_to64();
}

/// The next member above `back`, if the chain grows upward.
fn higher_of(kind: CunninghamKind, o: &PrimalityOracle, back: &BigNat) -> (r: Option<BigNat>)
    ensures
        r is Some ==> up_accepts(kind, *o, back@) && r->0@ == next_up(kind, back@),
        r is None ==> up_refused(kind, *o, back@),
{
    proof {
        lemma_two();
    }
    match kind {
        CunninghamKind::FIRST => {
            let h = add_u64(&shl(back, 1), 1);
            if residue(&h, 3) == 2 && o.passes_link(&h, true) {
                Some(h)
            } else {
                None
            }
        },
        CunninghamKind::SECOND => {
            if !at_least(back, 2) {
                return None;
            }
            let h = sub_u64(&shl(back, 1), 1);
            if residue(&h, 3) == 1 && o.passes_link(&h, false) {
                Some(h)
            } else {
                None
            }
        },
        CunninghamKind::BITWIN => {
            if !at_least(back, 1) {
                return None;
            }
            let h = shl(back, 1);
            if o.passes_link(&add_u64(&h, 1), false) && o.passes_link(&sub_u64(&h, 1), true) {
                Some(h)
            } else {
                None
            }
        },
    }
}

/// The member below `front`, if the chain grows downward.
fn lower_of(kind: CunninghamKind, o: &PrimalityOracle, front: &BigNat) -> (r: Option<BigNat>)
    ensures
        r is Some ==> down_accepts(kind, *o, front@) && next_up(kind, r->0@) == front@ && r->0@
            == next_down(kind, front@),
        r is None ==> down_refused(kind, *o, front@),
{
    proof {
        lemma_two();
    }
    let parity = residue(front, 2);
    match kind {
        CunninghamKind::FIRST => {
            if parity != 1 {
                return None;
            }
            let l = shr(front, 1);
            if at_least(&l, 2) && o.passes_link(&l, true) {
                Some(l)
            } else {
                None
            }
        },
        CunninghamKind::SECOND => {
            if parity != 1 {
                return None;
            }
            let l = shr(&add_u64(front, 1), 1);
            if at_least(&l, 2) && o.passes_link(&l, false) {
                Some(l)
            } else {
                None
            }
        },
        CunninghamKind::BITWIN => {
            if parity != 0 {
                return None;
            }
            let l = shr(front, 1);
            if at_least(&l, 2) && o.passes_link(&add_u64(&l, 1), false) && o.passes_link(
                &sub_u64(&l, 1),
                true,
            ) {
                Some(l)
            } else {
                None
            }
        },
    }
}

/// A member reached by a link passes the oracle as a member, and lies
/// above the member it was reached from (or below, going down).
proof fn lemma_link_member(kind: CunninghamKind, o: PrimalityOracle, v: nat)
    ensures
        up_accepts(kind, o, v) ==> member_passes(kind, o, next_up(kind, v) as nat),
        up_accepts(kind, o, v) ==> link_member_passes(kind, o, next_up(kind, v) as nat),
        up_accepts(kind, o, v) ==> v < next_up(kind, v),
        down_accepts(kind, o, v) ==> link_member_passes(kind, o, next_down(kind, v)),
        down_accepts(kind, o, v) ==> member_passes(kind, o, next_down(kind, v)),
        down_accepts(kind, o, v) ==> next_down(kind, v) < v,
{
}

/// Every member of `s` outside the `n` members from position `k` on passes
/// the test for linked members.
pub open spec fn links_pass_outside(
    kind: CunninghamKind,
    o: PrimalityOracle,
    s: Seq<nat>,
    k: int,
    n: int,
) -> bool {
    forall|i: int|
        0 <= i < s.len() && (i < k || i >= k + n) ==> #[trigger] link_member_passes(kind, o, s[i])
}

/// Grows the chain at both ends, upward first, until neither end grows or
/// the chain reaches the length cap.
fn extend(kind: CunninghamKind, o: &PrimalityOracle, members: &mut VecDeque<BigNat>)
    requires
        1 <= old(members)@.len() <= MAX_CHAIN_LENGTH,
        linked(kind, values_of(old(members)@)),
        all_pass(kind, *o, values_of(old(members)@)),
        strictly_ascending(values_of(old(members)@)),
    ensures
        old(members)@.len() <= final(members)@.len() <= MAX_CHAIN_LENGTH,
        linked(kind, values_of(final(members)@)),
        all_pass(kind, *o, values_of(final(members)@)),
        fully_extended(kind, *o, values_of(final(members)@)),
        strictly_ascending(values_of(final(members)@)),
        exists|k: int|
            0 <= k && k + old(members)@.len() <= final(members)@.len() && #[trigger] values_of(
                final(members)@,
            ).subrange(k, k + old(members)@.len()) == values_of(old(members)@) && links_pass_outside(
                kind,
                *o,
                values_of(final(members)@),
                k,
                old(members)@.len() as int,
            ),
{
    let ghost start = values_of(members@);
    let ghost mut k: int = 0;
    loop
        invariant
            1 <= members@.len() <= MAX_CHAIN_LENGTH,
            start.len() <= members@.len(),
            linked(kind, values_of(members@)),
            all_pass(kind, *o, values_of(members@)),
            0 <= k && k + start.len() <= members@.len(),
            values_of(members@).subrange(k, k + start.len()) == start,
            links_pass_outside(kind, *o, values_of(members@), k, start.len() as int),
            strictly_ascending(values_of(members@)),
        ensures
            1 <= members@.len() <= MAX_CHAIN_LENGTH,
            start.len() <= members@.len(),
            linked(kind, values_of(members@)),
            all_pass(kind, *o, values_of(members@)),
            fully_extended(kind, *o, values_of(members@)),
            0 <= k && k + start.len() <= members@.len(),
            values_of(members@).subrange(k, k + start.len()) == start,
            links_pass_outside(kind, *o, values_of(members@), k, start.len() as int),
            strictly_ascending(values_of(members@)),
        decreases MAX_CHAIN_LENGTH - members@.len(),
    {
        if members.len() >= MAX_CHAIN_LENGTH {
            break;
        }
        let ghost before = values_of(members@);
        let last = members.len() - 1;
        match higher_of(kind, o, &members[last]) {
            Some(h) => {
                proof {
                    lemma_link_member(kind, *o, before.last());
                }
                members.push_back(h);
                proof {
                    let after = values_of(members@);
                    assert(after =~= before.push(h@));
                    assert(after.subrange(k, k + start.len()) =~= before.subrange(
                        k,
                        k + start.len(),
                    ));
                    assert forall|i: int| 0 <= i < after.len() - 1 implies #[trigger] after[i + 1]
                        == next_up(kind, after[i]) by {
                        if i < before.len() - 1 {
                            assert(before[i + 1] == next_up(kind, before[i]));
                        }
                    }
                    assert forall|i: int| 0 <= i < after.len() - 1 implies #[trigger] after[i]
                        < after[i + 1] by {
                        if i < before.len() - 1 {
                            assert(before[i] < before[i + 1]);
                        }
                    }
                    assert forall|i: int| 0 <= i < after.len() implies #[trigger] member_passes(
                        kind,
                        *o,
                        after[i],
                    ) by {
                        if i < before.len() {
                            assert(member_passes(kind, *o, before[i]));
                        }
                    }
                    assert forall|i: int|
                        0 <= i < after.len() && (i < k || i >= k + start.len()) implies #[trigger] link_member_passes(
                        kind,
                        *o,
                        after[i],
                    ) by {
                        if i < before.len() {
                            assert(link_member_passes(kind, *o, before[i]));
                        }
                    }
                }
                continue;
            },
            None => {},
        }
        match lower_of(kind, o, &members[0]) {
            Some(l) => {
                proof {
                    lemma_link_member(kind, *o, before[0]);
                }
                members.push_front(l);
                proof {
                    let after = values_of(members@);
                    assert(after =~= seq![l@] + before);
                    assert(after.subrange(k + 1, k + 1 + start.len()) =~= before.subrange(
                        k,
                        k + start.len(),
                    ));
                    assert forall|i: int| 0 <= i < after.len() - 1 implies #[trigger] after[i + 1]
                        == next_up(kind, after[i]) by {
                        if i > 0 {
                            let j = i - 1;
                            assert(before[j + 1] == next_up(kind, before[j]));
                        }
                    }
                    assert forall|i: int| 0 <= i < after.len() - 1 implies #[trigger] after[i]
                        < after[i + 1] by {
                        if i > 0 {
                            let j = i - 1;
                            assert(before[j] < before[j + 1]);
                        }
                    }
                    assert forall|i: int| 0 <= i < after.len() implies #[trigger] member_passes(
                        kind,
                        *o,
                        after[i],
                    ) by {
                        if i > 0 {
                            assert(member_passes(kind, *o, before[i - 1]));
                        }
                    }
                    assert forall|i: int|
                        0 <= i < after.len() && (i < k + 1 || i >= k + 1 + start.len()) implies #[trigger] link_member_passes(
                        kind,
                        *o,
                        after[i],
                    ) by {
                        if i > 0 {
                            assert(link_member_passes(kind, *o, before[i - 1]));
                        }
                    }
                    k = k + 1;
                }
            },
            None => {
                break;
            },
        }
    }
}

/// Writes one member as the kind asks.
fn render_member(kind: CunninghamKind, b: &BigNat) -> (r: String)
    requires
        kind == CunninghamKind::BITWIN ==> b@ >= 1,
    ensures
        r@ == render(kind, b@),
{
    match kind {
        CunninghamKind::BITWIN => {
            let mut s = "{".to_owned();
            let below = to_decimal(&sub_u64(b, 1));
            let above = to_decimal(&add_u64(b, 1));
            s.append(below.as_str());
            s.append(", ");
            s.append(above.as_str());
            s.append("}");
            s
        },
        _ => to_decimal(b),
    }
}

/// Turns grown members into a chain record.
fn assemble(kind: CunninghamKind, members: VecDeque<BigNat>) -> (c: CunninghamChain)
    requires
        members@.len() >= 1,
        linked(kind, values_of(members@)),
        kind == CunninghamKind::BITWIN ==> forall|i: int|
            0 <= i < members@.len() ==> #[trigger] members@[i]@ >= 1,
    ensures
        c@.wf(),
        c@.kind == kind,
        c@.values == values_of(members@),
{
    let ghost all = values_of(members@);
    let mut numbers: Vec<BigNat> = Vec::new();
    let mut chain: Vec<String> = Vec::new();
    let mut rest = members;
    while rest.len() > 0
        invariant
            values_of(numbers@) + values_of(rest@) == all,
            chain@.len() == numbers@.len(),
            forall|i: int|
                0 <= i < chain@.len() ==> #[trigger] chain@[i]@ == render(kind, numbers@[i]@),
            kind == CunninghamKind::BITWIN ==> forall|i: int|
                0 <= i < all.len() ==> #[trigger] all[i] >= 1,
        decreases rest@.len(),
    {
        let ghost before_rest = rest@;
        let ghost before_numbers = numbers@;
        match rest.pop_front() {
            Some(b) => {
                proof {
                    assert(values_of(before_numbers) + values_of(before_rest) == all);
                    assert(all[before_numbers.len() as int] == b@);
                }
                chain.push(render_member(kind, &b));
                numbers.push(b);
                proof {
                    assert(values_of(numbers@) =~= values_of(before_numbers).push(b@));
                    assert(values_of(before_rest) =~= seq![b@] + values_of(rest@));
                    assert(values_of(numbers@) + values_of(rest@) =~= all);
                }
            },
            None => {},
        }
    }
    proof {
        assert(values_of(rest@) =~= Seq::<nat>::empty());
        assert(values_of(numbers@) =~= all);
    }
    let origin = to_decimal(&numbers[0]);
    let bits = bit_length(&numbers[0]);
    let length = numbers.len();
    let c = CunninghamChain { bits, length, kind, origin, chain, numbers };
    proof {
        assert(c@.values == all);
        assert(c@.members.len() == all.len());
        assert forall|i: int| 0 <= i < c@.values.len() implies #[trigger] c@.members[i] == render(
            kind,
            c@.values[i],
        ) by {
            assert(chain@[i]@ == render(kind, numbers@[i]@));
        }
    }
    c
}

/// The oracle's answers refused `seed` as a start: it may call the seed
/// composite, or for a bi-twin chain, both numbers two away from it.
pub open spec fn seed_refused(kind: CunninghamKind, o: PrimalityOracle, seed: nat) -> bool {
    o.allows(seed, false) || (kind == CunninghamKind::BITWIN && (seed < 2 || o.allows(
        (seed - 2) as nat,
        false,
    )) && o.allows(seed + 2, false))
}

/// The one-member start of a chain from a seed, if the oracle admits the seed.
/// A bi-twin chain starts between the seed and the prime two below it, or
/// else two above it.
fn start_chain(kind: CunninghamKind, o: &PrimalityOracle, seed: &BigNat) -> (r: Option<
    VecDeque<BigNat>,
>)
    ensures
        r is None ==> seed_refused(kind, *o, seed@),
        r matches Some(d) ==> d@.len() == 1 && member_passes(kind, *o, d@[0]@) && (kind
            != CunninghamKind::BITWIN ==> d@[0]@ == seed@) && (kind == CunninghamKind::BITWIN
            ==> (d@[0]@ == seed@ - 1 || d@[0]@ == seed@ + 1)),
{
    if !o.is_probable_prime(seed) {
        return None;
    }
    let anchor = match kind {
        CunninghamKind::BITWIN => {
            if at_least(seed, 2) && o.is_probable_prime(&sub_u64(seed, 2)) {
                sub_u64(seed, 1)
            } else if o.is_probable_prime(&add_u64(seed, 2)) {
                add_u64(seed, 1)
            } else {
                return None;
            }
        },
        _ => seed.clone(),
    };
    let mut d: VecDeque<BigNat> = VecDeque::new();
    d.push_back(anchor);
    proof {
        if kind == CunninghamKind::BITWIN {
            if d@[0]@ == seed@ - 1 {
                assert((d@[0]@ + 1) as nat == seed@);
            } else {
                assert(((d@[0]@ - 1) as nat) == seed@);
            }
        }
    }
    Some(d)
}

/// The members of a chain grown from `seed`: linked, strictly ascending,
/// passing the oracle, every member but one passing the link test, fully
/// extended, and holding the seed (or, for bi-twin chains, a neighbour of it).
pub open spec fn grown_from(kind: CunninghamKind, o: PrimalityOracle, seed: nat, s: Seq<nat>) -> bool {
    &&& 1 <= s.len() <= MAX_CHAIN_LENGTH
    &&& linked(kind, s)
    &&& strictly_ascending(s)
    &&& all_pass(kind, o, s)
    &&& fully_extended(kind, o, s)
    &&& links_pass(kind, o, s)
    &&& exists|i: int|
        0 <= i < s.len() && (#[trigger] s[i] == seed || (kind == CunninghamKind::BITWIN && (s[i]
            == seed - 1 || s[i] == seed + 1)))
}

/// Grows the chain of `kind` that starts from `seed`, or `None` if the oracle
/// does not admit the seed.
fn grow(kind: CunninghamKind, o: &PrimalityOracle, seed: &BigNat) -> (r: Option<VecDeque<BigNat>>)
    ensures
        r is None ==> seed_refused(kind, *o, seed@),
        r matches Some(d) ==> grown_from(kind, *o, seed@, values_of(d@)),
{
    match start_chain(kind, o, seed) {
        None => None,
        Some(mut d) => {
            let ghost first = d@[0]@;
            proof {
                assert(values_of(d@) =~= seq![first]);
                assert(all_pass(kind, *o, values_of(d@))) by {
                    assert(values_of(d@)[0] == first);
                }
            }
            extend(kind, o, &mut d);
            proof {
                let s = values_of(d@);
                let k = choose|k: int|
                    0 <= k && k + 1 <= s.len() && #[trigger] s.subrange(k, k + 1) == seq![first]
                        && links_pass_outside(kind, *o, s, k, 1);
                assert(s.subrange(k, k + 1)[0] == s[k]);
                assert(s[k] == first);
                assert(links_pass_except(kind, *o, s, k));
            }
            Some(d)
        },
    }
}

/// A number of at most `2^k` has at most `k + 1` binary digits.
proof fn lemma_bit_len_at_most(n: nat, k: nat)
    requires
        n <= pow2(k),
    ensures
        bit_len(n) <= k + 1,
    decreases k,
{
    if n > 1 {
        if k == 0 {
            vstd::arithmetic::power2::lemma2_to64();
        } else {
            vstd::arithmetic::power2::lemma_pow2_unfold(k);
            lemma_bit_len_at_most(n / 2, (k - 1) as nat);
        }
    }
}

/// What holds of a chain that a search for `request` returns when it judges
/// candidates by `o` and skips the origins that `registry` knows.
pub open spec fn found_by(
    c: ChainView,
    request: SearchRequest,
    o: PrimalityOracle,
    registry: KnownChainRegistry,
) -> bool {
    &&& c.wf()
    &&& c.kind == request.kind
    &&& c.length >= request.min_length
    &&& strictly_ascending(c.values)
    &&& all_pass(request.kind, o, c.values)
    &&& fully_extended(request.kind, o, c.values)
    &&& links_pass(request.kind, o, c.values)
    &&& !registry.knows(request.kind, c.values[0])
}

impl CunninghamChain {
    /// The chain of `kind` grown from `seed`, whatever its length, or `None`
    /// if the oracle does not admit the seed.
    pub fn from_seed(kind: CunninghamKind, o: &PrimalityOracle, seed: &BigNat) -> (r: Option<
        CunninghamChain,
    >)
        ensures
            r is None ==> seed_refused(kind, *o, seed@),
            r matches Some(c) ==> c@.wf() && c@.kind == kind && grown_from(
                kind,
                *o,
                seed@,
                c@.values,
            ),
    {
        match grow(kind, o, seed) {
            None => None,
            Some(d) => {
                proof {
                    if kind == CunninghamKind::BITWIN {
                        assert forall|i: int| 0 <= i < d@.len() implies #[trigger] d@[i]@ >= 1 by {
                            assert(member_passes(kind, *o, values_of(d@)[i]));
                        }
                    }
                }
                Some(assemble(kind, d))
            },
        }
    }

    /// `c` itself if it has at least `request.min_length` members and
    /// `registry` does not know its origin.
    pub fn accept_chain(
        request: &SearchRequest,
        registry: &KnownChainRegistry,
        c: CunninghamChain,
    ) -> (r: Option<CunninghamChain>)
        requires
            c@.wf(),
        ensures
            r is Some <==> (c@.length >= request.min_length && !registry.knows(
                c@.kind,
                c@.values[0],
            )),
            r matches Some(d) ==> d == c,
    {
        if c.length >= request.min_length && !registry.is_known(&c.numbers[0], c.kind) {
            proof {
                assert(c@.values[0] == c.numbers@[0]@);
            }
            Some(c)
        } else {
            proof {
                assert(c@.values[0] == c.numbers@[0]@);
            }
            None
        }
    }

    /// The chain grown from `seed`, if the oracle admits the seed, the chain
    /// has at least `request.min_length` members, and `registry` does not
    /// know its origin.
    pub fn try_seed(
        request: &SearchRequest,
        oracle: &PrimalityOracle,
        registry: &KnownChainRegistry,
        seed: &BigNat,
    ) -> (r: Option<CunninghamChain>)
        ensures
            r matches Some(c) ==> found_by(c@, *request, *oracle, *registry) && grown_from(
                request.kind,
                *oracle,
                seed@,
                c@.values,
            ),
            r is None ==> seed_refused(request.kind, *oracle, seed@) || exists|s: Seq<nat>|
                #[trigger] grown_from(request.kind, *oracle, seed@, s) && (s.len()
                    < request.min_length || registry.knows(request.kind, s[0])),
    {
        match Self::from_seed(request.kind, oracle, seed) {
            None => None,
            Some(c) => {
                let ghost v = c@;
                let r = Self::accept_chain(request, registry, c);
                proof {
                    if r is None {
                        assert(grown_from(request.kind, *oracle, seed@, v.values));
                    }
                }
                r
            },
        }
    }

    /// Searches for a chain of at least `request.min_length` members whose
    /// origin `registry` does not know. Seeds come from `source`, one per
    /// attempt, at most `max_seeds` of them. Before each draw, a previous
    /// seed of more than `bits + 4` bits ends the search; an ascending source
    /// that is already past `2^bits` counts as the previous seed, so a search
    /// resumed with the same source goes on where the last one stopped.
    pub fn find(
        request: &SearchRequest,
        source: &mut SeedSource,
        oracle: &PrimalityOracle,
        registry: &KnownChainRegistry,
        max_seeds: u64,
    ) -> (r: Result<CunninghamChain, CunninghamError>)
        ensures
            r matches Ok(c) ==> found_by(c@, *request, *oracle, *registry),
            r matches Ok(c) ==> grown_from(request.kind, *oracle, final(source).last_seed(), c@.values),
            r matches Err(e) ==> e == CunninghamError::ChainNotFound || e
                == CunninghamError::SeedBudgetSpent,
            r == Err::<CunninghamChain, CunninghamError>(CunninghamError::ChainNotFound) ==> bit_len(
                final(source).last_seed(),
            ) > request.bits + 4,
            max_seeds == 0 ==> r == Err::<CunninghamChain, CunninghamError>(
                CunninghamError::SeedBudgetSpent,
            ),
            *old(source) is Ascending ==> *final(source) is Ascending,
            *old(source) is Random ==> *final(source) is Random,
            *old(source) is Sampled && old(source)->Sampled_0.bits() == request.bits ==> (r matches Err(
                e,
            ) ==> e == CunninghamError::SeedBudgetSpent),
    {
        let kind = request.kind;
        let bits = request.bits;
        let mut seed = shl(&from_u64(1), bits);
        let ghost sampled = *source is Sampled && source->Sampled_0.bits() == bits;
        let ghost ascending = *source is Ascending;
        let ghost random = *source is Random;
        proof {
            assert(seed@ == pow2(bits as nat)) by {
                vstd::arithmetic::power2::lemma2_to64();
            }
            lemma_bit_len_at_most(pow2(bits as nat), bits as nat);
        }
        match source.ascending_position() {
            Some(position) => {
                let size = bit_length(&position);
                if size > bits && size - bits > 1 {
                    seed = position;
                }
            },
            None => {},
        }
        let mut drawn: u64 = 0;
        while drawn < max_seeds
            invariant
                kind == request.kind,
                bits == request.bits,
                drawn <= max_seeds,
                ascending == (*old(source) is Ascending),
                random == (*old(source) is Random),
                ascending ==> *source is Ascending,
                random ==> *source is Random,
                sampled == (*old(source) is Sampled && old(source)->Sampled_0.bits() == bits),
                sampled ==> *source is Sampled && source->Sampled_0.bits() == bits && seed@ <= pow2(
                    bits as nat,
                ),
                seed@ == source.last_seed() || bit_len(seed@) <= bits + 1,
            decreases max_seeds - drawn,
        {
            let size = bit_length(&seed);
            if size > bits && size - bits > 4 {
                proof {
                    if sampled {
                        lemma_bit_len_at_most(seed@, bits as nat);
                    }
                }
                return Err(CunninghamError::ChainNotFound);
            }
            seed = source.next_seed();
            drawn = drawn + 1;
            match Self::try_seed(request, oracle, registry, &seed) {
                None => {},
                Some(c) => {
                    return Ok(c);
                },
            }
        }
        Err(CunninghamError::SeedBudgetSpent)
    }

    /// The search over the probable primes from `2^(bits-1)` upward.
    pub fn search_ascending(
        request: &SearchRequest,
        oracle: &PrimalityOracle,
        registry: &KnownChainRegistry,
        max_seeds: u64,
    ) -> (r: Result<CunninghamChain, CunninghamError>)
        requires
            request.wf(),
        ensures
            r matches Ok(c) ==> found_by(c@, *request, *oracle, *registry),
            r matches Err(e) ==> e == CunninghamError::ChainNotFound || e
                == CunninghamError::SeedBudgetSpent,
            max_seeds == 0 ==> r == Err::<CunninghamChain, CunninghamError>(
                CunninghamError::SeedBudgetSpent,
            ),
    {
        let mut source = SeedSource::Ascending(AscendingPrimeGenerator::make(request.bits));
        Self::find(request, &mut source, oracle, registry, max_seeds)
    }

    /// The search over the probable primes that follow random numbers of
    /// `bits` bits, drawn from a state seeded with `seed`.
    pub fn search_random(
        request: &SearchRequest,
        oracle: &PrimalityOracle,
        registry: &KnownChainRegistry,
        seed: BigNat,
        max_seeds: u64,
    ) -> (r: Result<CunninghamChain, CunninghamError>)
        ensures
            r matches Ok(c) ==> found_by(c@, *request, *oracle, *registry),
            r matches Err(e) ==> e == CunninghamError::ChainNotFound || e
                == CunninghamError::SeedBudgetSpent,
            max_seeds == 0 ==> r == Err::<CunninghamChain, CunninghamError>(
                CunninghamError::SeedBudgetSpent,
            ),
    {
        let mut source = SeedSource::Random(RandomPrimeGenerator::make(request.bits, seed));
        Self::find(request, &mut source, oracle, registry, max_seeds)
    }

    /// The bit length of the origin.
    pub fn bits(&self) -> (r: usize)
        ensures
            r as nat == self@.bits,
    {
        self.bits
    }

    /// The number of members.
    pub fn length(&self) -> (r: usize)
        ensures
            r as nat == self@.length,
    {
        self.length
    }

    /// The kind of the chain.
    pub fn kind(&self) -> (r: CunninghamKind)
        ensures
            r == self@.kind,
    {
        self.kind
    }

    /// The origin in decimal.
    pub fn origin(&self) -> (r: &String)
        ensures
            r@ == self@.origin,
    {
        &self.origin
    }

    /// The members as written, smallest first.
    pub fn members(&self) -> (r: &Vec<String>)
        ensures
            strings_of(r@) == self@.members,
    {
        &self.chain
    }

    /// The values of the members, smallest first.
    pub fn numbers(&self) -> (r: &Vec<BigNat>)
        ensures
            values_of(r@) == self@.values,
    {
        &self.numbers
    }
}

/// The search that draws its seeds at random and judges candidates by
/// Fermat's and the Euler–Lagrange–Lifchitz tests.
pub struct PrimeCoinChain {}

impl PrimeCoinChain {
    /// Searches like `CunninghamChain::find`, with seeds that are one more
    /// than a random number of `bits` bits drawn from a state seeded with `seed`.
    pub fn make(
        bits: usize,
        length: usize,
        kind: CunninghamKind,
        seed: BigNat,
        registry: &KnownChainRegistry,
        max_seeds: u64,
    ) -> (r: Result<CunninghamChain, CunninghamError>)
        ensures
            r matches Ok(c) ==> found_by(
                c@,
                (SearchRequest { bits, min_length: length, kind }),
                PrimalityOracle::FermatLifchitz,
                *registry,
            ),
            r matches Err(e) ==> e == CunninghamError::SeedBudgetSpent,
            max_seeds == 0 ==> r == Err::<CunninghamChain, CunninghamError>(
                CunninghamError::SeedBudgetSpent,
            ),
    {
        let request = SearchRequest { bits, min_length: length, kind };
        let mut source = SeedSource::Sampled(SampledGenerator::make(bits, seed));
        CunninghamChain::find(
            &request,
            &mut source,
            &PrimalityOracle::FermatLifchitz,
            registry,
            max_seeds,
        )
    }
}

} // verus!
