use vstd::prelude::*;

use crate::chain::{ChainView, SearchRequest, found_by, linked, member_passes};
use crate::findings::KnownChainRegistry;
use crate::kind::CunninghamKind;
use crate::primality::PrimalityOracle;

verus! {

/// Residues modulo 3 that the rule `2p + 1` keeps: from a member that is 2
/// mod 3 on, every later member of a linked first-kind chain is 2 mod 3.
proof fn lemma_first_residue(s: Seq<nat>, i: int)
    requires
        linked(CunninghamKind::FIRST, s),
        s.len() >= 1,
        s[0] % 3 == 2,
        0 <= i < s.len(),
    ensures
        s[i] % 3 == 2,
    decreases i,
{
    if i > 0 {
        lemma_first_residue(s, i - 1);
        let j = i - 1;
        assert(s[j + 1] == 2 * s[j] + 1);
    }
}

/// The same for the rule `2p - 1` and the residue 1.
proof fn lemma_second_residue(s: Seq<nat>, i: int)
    requires
        linked(CunninghamKind::SECOND, s),
        s.len() >= 1,
        s[0] % 3 == 1,
        0 <= i < s.len(),
    ensures
        s[i] % 3 == 1,
    decreases i,
{
    if i > 0 {
        lemma_second_residue(s, i - 1);
        let j = i - 1;
        assert(s[j + 1] == 2 * s[j] - 1);
    }
}

/// In a chain of the first kind that a search returns, each member is twice
/// the one before plus one, and every member after the origin is 2 mod 3,
/// provided the origin is (a chain that grew only downward from a seed may
/// start at 3, as 3, 7 does).
pub proof fn first_kind_congruence(
    c: ChainView,
    request: SearchRequest,
    o: PrimalityOracle,
    registry: KnownChainRegistry,
)
    requires
        found_by(c, request, o, registry),
        c.kind == CunninghamKind::FIRST,
        c.values.len() == 1 || c.values[0] % 3 == 2,
    ensures
        forall|i: int| 0 <= i < c.values.len() - 1 ==> #[trigger] c.values[i + 1] == 2 * c.values[i] + 1,
        forall|i: int| 1 <= i < c.values.len() ==> #[trigger] c.values[i] % 3 == 2,
{
    assert forall|i: int| 1 <= i < c.values.len() implies #[trigger] c.values[i] % 3 == 2 by {
        lemma_first_residue(c.values, i);
    }
}

/// In a chain of the second kind that a search returns, each member is twice
/// the one before minus one, and every member after the origin is 1 mod 3,
/// provided the origin is (3, 5 and 2, 3, 5 are chains for which it fails).
pub proof fn second_kind_congruence(
    c: ChainView,
    request: SearchRequest,
    o: PrimalityOracle,
    registry: KnownChainRegistry,
)
    requires
        found_by(c, request, o, registry),
        c.kind == CunninghamKind::SECOND,
        c.values.len() == 1 || c.values[0] % 3 == 1,
    ensures
        forall|i: int| 0 <= i < c.values.len() - 1 ==> #[trigger] c.values[i + 1] == 2 * c.values[i] - 1,
        forall|i: int| 1 <= i < c.values.len() ==> #[trigger] c.values[i] % 3 == 1,
{
    assert forall|i: int| 1 <= i < c.values.len() implies #[trigger] c.values[i] % 3 == 1 by {
        lemma_second_residue(c.values, i);
    }
}

/// In a bi-twin chain that a search returns, each member is twice the one
/// before, and for every member `n`, the oracle may call both `n - 1` and
/// `n + 1` probable primes (it called them so).
pub proof fn bi_twin_pairs(
    c: ChainView,
    request: SearchRequest,
    o: PrimalityOracle,
    registry: KnownChainRegistry,
)
    requires
        found_by(c, request, o, registry),
        c.kind == CunninghamKind::BITWIN,
    ensures
        forall|i: int| 0 <= i < c.values.len() - 1 ==> #[trigger] c.values[i + 1] == 2 * c.values[i],
        forall|i: int|
            0 <= i < c.values.len() ==> #[trigger] c.values[i] >= 1 && o.allows(
                (c.values[i] - 1) as nat,
                true,
            ) && o.allows(c.values[i] + 1, true),
{
    assert forall|i: int| 0 <= i < c.values.len() implies #[trigger] c.values[i] >= 1
        && o.allows((c.values[i] - 1) as nat, true) && o.allows(c.values[i] + 1, true) by {
        assert(member_passes(CunninghamKind::BITWIN, o, c.values[i]));
    }
}

proof fn lemma_above_origin(s: Seq<nat>, i: int)
    requires
        crate::chain::strictly_ascending(s),
        0 < i < s.len(),
    ensures
        s[0] < s[i],
    decreases i,
{
    let j = i - 1;
    assert(s[j] < s[j + 1]);
    if i > 1 {
        lemma_above_origin(s, i - 1);
    }
}

/// The members of a chain that a search returns strictly increase, so its
/// origin is its smallest member.
pub proof fn origin_is_smallest(
    c: ChainView,
    request: SearchRequest,
    o: PrimalityOracle,
    registry: KnownChainRegistry,
)
    requires
        found_by(c, request, o, registry),
    ensures
        forall|i: int| 0 <= i < c.values.len() - 1 ==> #[trigger] c.values[i] < c.values[i + 1],
        forall|i: int| 0 < i < c.values.len() ==> c.values[0] < #[trigger] c.values[i],
{
    assert forall|i: int| 0 < i < c.values.len() implies c.values[0] < #[trigger] c.values[i] by {
        lemma_above_origin(c.values, i);
    }
}

/// A chain that a search returns has at least the requested number of members.
pub proof fn length_meets_request(
    c: ChainView,
    request: SearchRequest,
    o: PrimalityOracle,
    registry: KnownChainRegistry,
)
    requires
        found_by(c, request, o, registry),
    ensures
        c.length >= request.min_length,
        c.length == c.values.len() == c.members.len(),
        c.kind == request.kind,
        c.bits == crate::bignat::bit_len(c.values[0]),
        c.kind != CunninghamKind::BITWIN ==> c.origin == c.members[0],
{
    assert(c.members[0] == crate::chain::render(c.kind, c.values[0]));
}

/// A search never returns a chain whose origin the registry knows for its
/// kind.
pub proof fn known_origins_are_skipped(
    c: ChainView,
    request: SearchRequest,
    o: PrimalityOracle,
    registry: KnownChainRegistry,
)
    requires
        found_by(c, request, o, registry),
    ensures
        !registry.origins(c.kind).contains(c.origin),
{
}

} // verus!
