//! The quorum-and-majority rule that decides a proposal.

use vstd::prelude::*;
use crate::error::DAOError;
use crate::word::{word_bound, Word};

verus! {

/// Enough of the eligible weight took part: `(for + against) * 100 >=
/// total * quorum`.
pub open spec fn quorum_met(for_votes: nat, against_votes: nat, total: nat, quorum: nat) -> bool {
    (for_votes + against_votes) * 100 >= total * quorum
}

/// Strictly more weight voted for than against; a tie is no majority.
pub open spec fn majority_for(for_votes: nat, against_votes: nat) -> bool {
    for_votes > against_votes
}

/// The outcome of a proposal with these tallies.
pub open spec fn passes(for_votes: nat, against_votes: nat, total: nat, quorum: nat) -> bool {
    quorum_met(for_votes, against_votes, total, quorum) && majority_for(for_votes, against_votes)
}

/// One of the quantities that the rule computes does not fit in 256 bits.
pub open spec fn resolution_overflows(
    for_votes: nat,
    against_votes: nat,
    total: nat,
    quorum: nat,
) -> bool {
    ||| for_votes + against_votes >= word_bound()
    ||| (for_votes + against_votes) * 100 >= word_bound()
    ||| total * quorum >= word_bound()
}

/// Decides a proposal from its tallies, the total voting power and the quorum
/// percentage, in 256-bit arithmetic that rejects overflow.
pub fn resolve(
    for_votes: &Word,
    against_votes: &Word,
    total_voting_power: &Word,
    quorum_percentage: &Word,
) -> (r: Result<bool, DAOError>)
    ensures
        match r {
            Ok(passed) => !resolution_overflows(
                for_votes.value(),
                against_votes.value(),
                total_voting_power.value(),
                quorum_percentage.value(),
            ) && passed == passes(
                for_votes.value(),
                against_votes.value(),
                total_voting_power.value(),
                quorum_percentage.value(),
            ),
            Err(e) => e == DAOError::Overflow && resolution_overflows(
                for_votes.value(),
                against_votes.value(),
                total_voting_power.value(),
                quorum_percentage.value(),
            ),
        },
{
    let total_votes = match for_votes.checked_add(against_votes) {
        Some(s) => s,
        None => return Err(DAOError::Overflow),
    };
    let scaled_votes = match total_votes.checked_mul(&Word::from_u64(100)) {
        Some(p) => p,
        None => return Err(DAOError::Overflow),
    };
    let threshold = match total_voting_power.checked_mul(quorum_percentage) {
        Some(p) => p,
        None => return Err(DAOError::Overflow),
    };
    let quorum = !scaled_votes.lt(&threshold);
    let majority = against_votes.lt(for_votes);
    Ok(quorum && majority)
}

} // verus!
