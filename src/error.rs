//! The ways an operation on the organization is rejected.

use vstd::prelude::*;

verus! {

/// Why an operation was rejected. A rejected operation changes nothing.
#[derive(Clone, Copy, Debug, PartialEq, Eq, Structural)]
pub enum DAOError {
    /// The caller, or the address acted on, is not an active member.
    NotMember,
    /// The address to add is already an active member.
    AlreadyMember,
    /// A voting weight of zero was given.
    InvalidVotingPower,
    /// The creator of the organization cannot be removed.
    CannotRemoveCreator,
    /// The proposal's voting window has closed.
    VotingPeriodEnded,
    /// The caller has already voted on this proposal.
    AlreadyVoted,
    /// The proposal's voting window is still open.
    VotingPeriodNotEnded,
    /// The proposal has already been resolved.
    AlreadyExecuted,
    /// Execution was asked for an id that no proposal has.
    ProposalNotFound,
    /// A sum or product does not fit in 256 bits.
    Overflow,
}

} // verus!
