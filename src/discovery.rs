use vstd::prelude::*;

use crate::errors::FlareSyncError;
use crate::ipv4::{dotted, parse_ipv4, Ipv4};
use crate::text::trimmed;

verus! {

/// How many of the sources reported `ip` (a failed source is `None`).
pub open spec fn votes(results: Seq<Option<Ipv4>>, ip: Ipv4) -> nat
    decreases results.len(),
{
    if results.len() == 0 {
        0
    } else {
        votes(results.drop_last(), ip) + if results.last() == Some(ip) {
            1nat
        } else {
            0nat
        }
    }
}

/// `ip` was reported by a strict majority of the sources.
pub open spec fn has_quorum(results: Seq<Option<Ipv4>>, ip: Ipv4) -> bool {
    2 * votes(results, ip) > results.len()
}

proof fn lemma_votes_witness(results: Seq<Option<Ipv4>>, ip: Ipv4)
    requires
        votes(results, ip) > 0,
    ensures
        exists|j: int| 0 <= j < results.len() && results[j] == Some(ip),
    decreases results.len(),
{
    if results.last() == Some(ip) {
        assert(results[results.len() - 1] == Some(ip));
    } else {
        lemma_votes_witness(results.drop_last(), ip);
        let j = choose|j: int|
            0 <= j < results.drop_last().len() && results.drop_last()[j] == Some(ip);
        assert(results[j] == Some(ip));
    }
}

proof fn lemma_votes_disjoint(results: Seq<Option<Ipv4>>, x: Ipv4, y: Ipv4)
    requires
        x != y,
    ensures
        votes(results, x) + votes(results, y) <= results.len(),
    decreases results.len(),
{
    if results.len() > 0 {
        lemma_votes_disjoint(results.drop_last(), x, y);
    }
}

/// At most one address can be reported by a strict majority of the sources, so the result of a
/// discovery never depends on the order in which the addresses are tallied.
pub proof fn lemma_quorum_unique(results: Seq<Option<Ipv4>>, x: Ipv4, y: Ipv4)
    requires
        has_quorum(results, x),
        has_quorum(results, y),
    ensures
        x == y,
{
    if x != y {
        lemma_votes_disjoint(results, x, y);
    }
}

fn count_votes(results: &Vec<Option<Ipv4>>, ip: Ipv4) -> (r: usize)
    ensures
        r == votes(results@, ip),
{
    let mut i: usize = 0;
    let mut count: usize = 0;
    while i < results.len()
        invariant
            i <= results@.len(),
            count == votes(results@.subrange(0, i as int), ip),
            count <= i,
        decreases results@.len() - i,
    {
        proof {
            let next = results@.subrange(0, i + 1);
            assert(next.drop_last() == results@.subrange(0, i as int));
        }
        if results[i] == Some(ip) {
            count = count + 1;
        }
        i = i + 1;
    }
    proof {
        assert(results@.subrange(0, i as int) == results@);
    }
    count
}

/// Decides the address from the sources' outcomes: the address that a strict majority of the
/// sources reported, or `QuorumNotReached` when there is none.
pub fn resolve_quorum(results: &Vec<Option<Ipv4>>) -> (r: Result<Ipv4, FlareSyncError>)
    ensures
        match r {
            Ok(ip) => has_quorum(results@, ip),
            Err(e) => e is QuorumNotReached && forall|ip: Ipv4| !has_quorum(results@, ip),
        },
{
    let n = results.len();
    let mut i: usize = 0;
    while i < n
        invariant
            n == results@.len(),
            i <= n,
            forall|j: int|
                0 <= j < i && (#[trigger] results@[j]) is Some ==> !has_quorum(
                    results@,
                    results@[j]->0,
                ),
        decreases n - i,
    {
        if let Some(ip) = results[i] {
            let count = count_votes(results, ip);
            if count > n / 2 {
                return Ok(ip);
            }
        }
        i = i + 1;
    }
    proof {
        assert forall|ip: Ipv4| !has_quorum(results@, ip) by {
            if has_quorum(results@, ip) {
                lemma_votes_witness(results@, ip);
                let j = choose|j: int| 0 <= j < results@.len() && results@[j] == Some(ip);
                assert(results@[j] is Some);
            }
        }
    }
    Err(FlareSyncError::QuorumNotReached)
}

/// The outcome of one address source: the address in the body that it answered with, or
/// `None` where the request failed or the body, white space aside, is not an address.
pub fn source_outcome(fetched: &Result<String, FlareSyncError>) -> (r: Option<Ipv4>)
    ensures
        match fetched {
            Ok(body) => match r {
                Some(ip) => trimmed(body@) == dotted(ip),
                None => forall|ip: Ipv4| trimmed(body@) != dotted(ip),
            },
            Err(_) => r is None,
        },
{
    match fetched {
        Ok(body) => parse_ipv4(body.as_str()),
        Err(_) => None,
    }
}

} // verus!
