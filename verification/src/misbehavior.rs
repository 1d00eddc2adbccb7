//! Provable faults of validators.

use vstd::prelude::*;
use crate::candidate::ValidityVote;
use crate::primitives::{self, CandidateReceipt, CandidateReceiptView, Signature};
use crate::statement::{SignedStatement, SignedStatementView};

verus! {

/// Evidence that a validator broke the rules of the table. Every signature
/// is the validator's own.
#[derive(Debug, PartialEq, Eq)]
pub enum Misbehavior {
    /// The validator proposed a candidate and also voted it valid. Holds the
    /// digest, the signature of the proposal and that of the vote.
    DoubleCandidate(primitives::Hash, Signature, Signature),
    /// The validator spoke for and against one candidate. Holds the digest,
    /// the signature of the statement in favour (a proposal or a vote of
    /// validity) and that of the vote of invalidity.
    ValidityDoubleVote(primitives::Hash, Signature, Signature),
    /// The validator proposed two candidates for one parachain. Holds the
    /// digest and signature of the first, which the table keeps, and the
    /// receipt and signature of the second.
    MultipleCandidates(primitives::Hash, Signature, CandidateReceipt, Signature),
    /// The validator made a statement it had no right to make, or one whose
    /// signature does not verify.
    UnauthorizedStatement(SignedStatement),
}

/// The contents of a [`Misbehavior`].
pub enum MisbehaviorView {
    DoubleCandidate(primitives::Hash, Signature, Signature),
    ValidityDoubleVote(primitives::Hash, Signature, Signature),
    MultipleCandidates(primitives::Hash, Signature, CandidateReceiptView, Signature),
    UnauthorizedStatement(SignedStatementView),
}

impl View for Misbehavior {
    type V = MisbehaviorView;

    open spec fn view(&self) -> MisbehaviorView {
        match self {
            Misbehavior::DoubleCandidate(digest, issued, valid) => MisbehaviorView::DoubleCandidate(
                *digest,
                *issued,
                *valid,
            ),
            Misbehavior::ValidityDoubleVote(digest, valid, invalid) => MisbehaviorView::ValidityDoubleVote(
                *digest,
                *valid,
                *invalid,
            ),
            Misbehavior::MultipleCandidates(first, first_signature, second, second_signature) => MisbehaviorView::MultipleCandidates(
                *first,
                *first_signature,
                second@,
                *second_signature,
            ),
            Misbehavior::UnauthorizedStatement(statement) => MisbehaviorView::UnauthorizedStatement(
                statement@,
            ),
        }
    }
}

impl Clone for Misbehavior {
    fn clone(&self) -> (copy: Self)
        ensures
            copy@ == self@,
    {
        match self {
            Misbehavior::DoubleCandidate(digest, issued, valid) => Misbehavior::DoubleCandidate(
                *digest,
                *issued,
                *valid,
            ),
            Misbehavior::ValidityDoubleVote(digest, valid, invalid) => Misbehavior::ValidityDoubleVote(
                *digest,
                *valid,
                *invalid,
            ),
            Misbehavior::MultipleCandidates(first, first_signature, second, second_signature) => Misbehavior::MultipleCandidates(
                *first,
                *first_signature,
                second.clone(),
                *second_signature,
            ),
            Misbehavior::UnauthorizedStatement(statement) => Misbehavior::UnauthorizedStatement(
                statement.clone(),
            ),
        }
    }
}

/// The fault, if any, in casting `incoming` where `existing` was cast
/// before by the same validator on the candidate with digest `digest`.
/// Repeating a vote is no fault. A proposal together with a vote of
/// validity is a double candidacy; anything in favour together with a vote
/// of invalidity is a double vote.
pub open spec fn clash(
    digest: primitives::Hash,
    existing: ValidityVote,
    incoming: ValidityVote,
) -> Option<MisbehaviorView> {
    match (existing, incoming) {
        (ValidityVote::Implicit(_), ValidityVote::Implicit(_)) => None,
        (ValidityVote::Valid(_), ValidityVote::Valid(_)) => None,
        (ValidityVote::Invalid(_), ValidityVote::Invalid(_)) => None,
        (ValidityVote::Implicit(i), ValidityVote::Valid(v)) => Some(
            MisbehaviorView::DoubleCandidate(digest, i, v),
        ),
        (ValidityVote::Valid(v), ValidityVote::Implicit(i)) => Some(
            MisbehaviorView::DoubleCandidate(digest, i, v),
        ),
        (ValidityVote::Implicit(i), ValidityVote::Invalid(n)) => Some(
            MisbehaviorView::ValidityDoubleVote(digest, i, n),
        ),
        (ValidityVote::Invalid(n), ValidityVote::Implicit(i)) => Some(
            MisbehaviorView::ValidityDoubleVote(digest, i, n),
        ),
        (ValidityVote::Valid(v), ValidityVote::Invalid(n)) => Some(
            MisbehaviorView::ValidityDoubleVote(digest, v, n),
        ),
        (ValidityVote::Invalid(n), ValidityVote::Valid(v)) => Some(
            MisbehaviorView::ValidityDoubleVote(digest, v, n),
        ),
    }
}

/// Finds the fault, if any, in casting `incoming` after `existing`.
pub fn find_clash(digest: primitives::Hash, existing: ValidityVote, incoming: ValidityVote) -> (fault:
    Option<Misbehavior>)
    ensures
        match fault {
            Some(misbehavior) => clash(digest, existing, incoming) == Some(misbehavior@),
            None => clash(digest, existing, incoming).is_none(),
        },
{
    match (existing, incoming) {
        (ValidityVote::Implicit(_), ValidityVote::Implicit(_)) => None,
        (ValidityVote::Valid(_), ValidityVote::Valid(_)) => None,
        (ValidityVote::Invalid(_), ValidityVote::Invalid(_)) => None,
        (ValidityVote::Implicit(i), ValidityVote::Valid(v)) => Some(
            Misbehavior::DoubleCandidate(digest, i, v),
        ),
        (ValidityVote::Valid(v), ValidityVote::Implicit(i)) => Some(
            Misbehavior::DoubleCandidate(digest, i, v),
        ),
        (ValidityVote::Implicit(i), ValidityVote::Invalid(n)) => Some(
            Misbehavior::ValidityDoubleVote(digest, i, n),
        ),
        (ValidityVote::Invalid(n), ValidityVote::Implicit(i)) => Some(
            Misbehavior::ValidityDoubleVote(digest, i, n),
        ),
        (ValidityVote::Valid(v), ValidityVote::Invalid(n)) => Some(
            Misbehavior::ValidityDoubleVote(digest, v, n),
        ),
        (ValidityVote::Invalid(n), ValidityVote::Valid(v)) => Some(
            Misbehavior::ValidityDoubleVote(digest, v, n),
        ),
    }
}

} // verus!
