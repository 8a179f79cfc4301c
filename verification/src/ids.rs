//! Peer numbers, amounts and the quorum sizes of a federation.

use vstd::prelude::*;

verus! {

/// The number of a federation member. Members of a federation are numbered from 0.
pub type PeerId = u16;

/// An amount of bitcoin, in thousandths of a satoshi.
#[derive(Clone, Copy, Debug, PartialEq, Eq, Structural)]
pub struct Amount {
    pub milli_sat: u64,
}

/// A copy of `amounts`.
pub(crate) fn clone_amounts(amounts: &Vec<Amount>) -> (copy: Vec<Amount>)
    ensures
        copy@ == amounts@,
{
    let copy = amounts.clone();
    proof {
        assert(copy@ =~= amounts@);
    }
    copy
}

/// How many of `total` members may misbehave without harm: the largest `f` with `3 f < total`.
pub open spec fn max_evil_spec(total: int) -> int {
    (total - 1) / 3
}

/// How many members one has to ask so that at least one of them is honest.
pub open spec fn one_honest_spec(total: int) -> int {
    max_evil_spec(total) + 1
}

/// How many members answer even if every dishonest one stays silent.
pub open spec fn threshold_spec(total: int) -> int {
    total - max_evil_spec(total)
}

/// The number of members that may misbehave among `peers`.
pub fn max_evil(peers: &[PeerId]) -> (f: usize)
    requires
        peers@.len() > 0,
    ensures
        f == max_evil_spec(peers@.len() as int),
{
    (peers.len() - 1) / 3
}

/// The number of members among `peers` of which at least one is honest.
pub fn one_honest(peers: &[PeerId]) -> (n: usize)
    requires
        peers@.len() > 0,
    ensures
        n == one_honest_spec(peers@.len() as int),
{
    (peers.len() - 1) / 3 + 1
}

/// The number of members among `peers` that have to agree.
pub fn threshold(peers: &[PeerId]) -> (n: usize)
    requires
        peers@.len() > 0,
    ensures
        n == threshold_spec(peers@.len() as int),
{
    peers.len() - max_evil(peers)
}

/// Fewer than a third of the members may misbehave, an agreeing group is never larger than
/// the federation, and any two agreeing groups share an honest member.
pub proof fn quorums_intersect(total: int)
    requires
        total > 0,
    ensures
        0 <= 3 * max_evil_spec(total) < total,
        1 <= one_honest_spec(total) <= threshold_spec(total) <= total,
        2 * threshold_spec(total) - total >= one_honest_spec(total),
{
}

} // verus!
