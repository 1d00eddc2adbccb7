//! The errors that the crate reports.

use vstd::prelude::*;
use crate::primitives;

verus! {

/// What can go wrong while a slot is prepared or a proposal is judged.
#[derive(Debug, PartialEq, Eq)]
pub enum Error {
    /// A list of the duty roster is not as long as the authority list. Holds
    /// the length of the authority list, then that of the roster list.
    InvalidDutyRosterLength(usize, usize),
    /// The chain does not know the parent block.
    UnknownParent,
    /// The proposal is no block of this chain.
    ProposalNotForPolkadot,
    /// The extrinsics of the proposal are larger than a block may hold.
    /// Holds their size in bytes.
    ProposalTooLarge(usize),
    /// The proposal builds on another parent. Holds the expected parent hash,
    /// then the one found.
    WrongParentHash(primitives::Hash, primitives::Hash),
    /// The timestamp of the proposal is too far ahead of the local clock.
    TimestampInFuture,
    /// The chain-state client failed. Holds its message.
    ClientError(String),
    /// A fetch of candidate data failed. Holds the router's message.
    FetchError(String),
}

impl Error {
    /// A one-line description of the kind of error.
    pub fn description(&self) -> (text: &'static str)
        ensures
            text@.len() > 0,
    {
        let text = match self {
            Error::InvalidDutyRosterLength(_, _) => "Duty roster has the wrong length",
            Error::UnknownParent => "Parent block is unknown",
            Error::ProposalNotForPolkadot => "Proposal is not a block of this chain",
            Error::ProposalTooLarge(_) => "Proposal extrinsics exceed the size limit",
            Error::WrongParentHash(_, _) => "Proposal builds on the wrong parent",
            Error::TimestampInFuture => "Proposal timestamp is too far in the future",
            Error::ClientError(_) => "Chain-state client failed",
            Error::FetchError(_) => "Candidate data could not be fetched",
        };
        proof {
            reveal_strlit("Duty roster has the wrong length");
            reveal_strlit("Parent block is unknown");
            reveal_strlit("Proposal is not a block of this chain");
            reveal_strlit("Proposal extrinsics exceed the size limit");
            reveal_strlit("Proposal builds on the wrong parent");
            reveal_strlit("Proposal timestamp is too far in the future");
            reveal_strlit("Chain-state client failed");
            reveal_strlit("Candidate data could not be fetched");
        }
        text
    }
}

} // verus!
