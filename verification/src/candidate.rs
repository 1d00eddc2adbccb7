//! What the table keeps about one candidate, and when it may be included.

use vstd::prelude::*;
use crate::primitives::{AuthorityId, CandidateReceipt, CandidateReceiptView, ParaId, Signature};
use crate::vec_map::VecMap;

verus! {

/// The vote of one validity guarantor on one candidate, with the signature
/// of the statement that cast it.
#[derive(Clone, Copy, Debug, PartialEq, Eq)]
pub enum ValidityVote {
    /// The guarantor proposed the candidate, which vouches for it.
    Implicit(Signature),
    /// The guarantor stated that the candidate is valid.
    Valid(Signature),
    /// The guarantor stated that the candidate is invalid.
    Invalid(Signature),
}

impl ValidityVote {
    /// Whether the vote speaks for the candidate.
    pub open spec fn in_favour(self) -> bool {
        !(self is Invalid)
    }

    /// The signature of the statement that cast the vote.
    pub open spec fn signature(self) -> Signature {
        match self {
            ValidityVote::Implicit(signature) => signature,
            ValidityVote::Valid(signature) => signature,
            ValidityVote::Invalid(signature) => signature,
        }
    }
}

/// The record of one candidate.
#[derive(Debug)]
pub struct CandidateData {
    /// The parachain of the candidate.
    pub group_id: ParaId,
    /// The receipt of the candidate.
    pub candidate: CandidateReceipt,
    /// The validator whose statement made the candidate known.
    pub proposer: AuthorityId,
    /// The validity votes, by voter.
    pub validity_votes: VecMap<AuthorityId, ValidityVote>,
    /// The availability votes, by voter, with the signature of each.
    pub availability_votes: VecMap<AuthorityId, Signature>,
}

/// The contents of a [`CandidateData`].
pub struct CandidateView {
    pub group_id: ParaId,
    pub receipt: CandidateReceiptView,
    pub proposer: AuthorityId,
    pub validity_votes: Map<AuthorityId, ValidityVote>,
    pub availability_votes: Map<AuthorityId, Signature>,
}

impl View for CandidateData {
    type V = CandidateView;

    open spec fn view(&self) -> CandidateView {
        CandidateView {
            group_id: self.group_id,
            receipt: self.candidate@,
            proposer: self.proposer,
            validity_votes: self.validity_votes@,
            availability_votes: self.availability_votes@,
        }
    }
}

impl CandidateView {
    /// The voters that speak for the candidate: by a statement of validity
    /// or by having proposed it.
    pub open spec fn valid_voters(self) -> Set<AuthorityId> {
        self.validity_votes.dom().filter(|a: AuthorityId| self.validity_votes[a].in_favour())
    }

    /// The voters that called the candidate invalid.
    pub open spec fn invalid_voters(self) -> Set<AuthorityId> {
        self.validity_votes.dom().filter(|a: AuthorityId| !self.validity_votes[a].in_favour())
    }

    /// The number of votes for the candidate's validity.
    pub open spec fn valid_count(self) -> nat {
        self.valid_voters().len()
    }

    /// The number of votes against the candidate's validity.
    pub open spec fn invalid_count(self) -> nat {
        self.invalid_voters().len()
    }

    /// The number of votes for the availability of the candidate's data.
    pub open spec fn available_count(self) -> nat {
        self.availability_votes.dom().len()
    }

    /// Whether the candidate may be included: enough votes for its validity,
    /// none against it, and enough votes for its availability.
    pub open spec fn includable(self, needed_validity: nat, needed_availability: nat) -> bool {
        &&& self.valid_count() >= needed_validity
        &&& self.invalid_count() == 0
        &&& self.available_count() >= needed_availability
    }
}

/// The number of keys in `keys` that meet `pred`.
pub open spec fn count_where<K>(keys: Seq<K>, pred: spec_fn(K) -> bool) -> nat
    decreases keys.len(),
{
    if keys.len() == 0 {
        0
    } else {
        count_where(keys.drop_last(), pred) + if pred(keys.last()) {
            1nat
        } else {
            0nat
        }
    }
}

/// Counting along a list without repetitions counts the members of its set.
pub proof fn lemma_count_where<K>(keys: Seq<K>, pred: spec_fn(K) -> bool)
    requires
        keys.no_duplicates(),
    ensures
        keys.to_set().filter(pred).finite(),
        keys.to_set().filter(pred).len() == count_where(keys, pred),
        count_where(keys, pred) <= keys.len(),
    decreases keys.len(),
{
    if keys.len() == 0 {
        assert(keys.to_set().filter(pred) =~= Set::<K>::empty());
    } else {
        let init = keys.drop_last();
        let last = keys.last();
        lemma_count_where(init, pred);
        assert(!init.to_set().contains(last)) by {
            if init.to_set().contains(last) {
                let j = choose|j: int| 0 <= j < init.len() && init[j] == last;
                assert(keys[j] == keys[keys.len() - 1]);
            }
        }
        assert forall|k: K| keys.to_set().contains(k) <==> (k == last || init.to_set().contains(
            k,
        )) by {
            if keys.to_set().contains(k) {
                let j = choose|j: int| 0 <= j < keys.len() && keys[j] == k;
                if j < init.len() {
                    assert(init[j] == k);
                }
            }
            if init.to_set().contains(k) {
                let j = choose|j: int| 0 <= j < init.len() && init[j] == k;
                assert(keys[j] == k);
            }
            if k == last {
                assert(keys[keys.len() - 1] == k);
            }
        }
        if pred(last) {
            assert(keys.to_set().filter(pred) =~= init.to_set().filter(pred).insert(last));
        } else {
            assert(keys.to_set().filter(pred) =~= init.to_set().filter(pred));
        }
    }
}

impl CandidateData {
    /// The number of votes for the candidate's validity.
    pub fn valid_votes(&self) -> (count: usize)
        ensures
            count == self@.valid_count(),
    {
        let total = self.validity_votes.len();
        let ghost keys = self.validity_votes.key_seq();
        let ghost pred = |a: AuthorityId| self@.validity_votes[a].in_favour();
        let mut count: usize = 0;
        let mut i: usize = 0;
        while i < total
            invariant
                i <= total,
                total == keys.len(),
                keys == self.validity_votes.key_seq(),
                pred == (|a: AuthorityId| self@.validity_votes[a].in_favour()),
                count == count_where(keys.take(i as int), pred),
                count <= i,
            decreases total - i,
        {
            let vote = self.validity_votes.value_at(i);
            proof {
                assert(keys.take(i + 1).drop_last() =~= keys.take(i as int));
                assert(keys.take(i + 1).last() == keys[i as int]);
            }
            match vote {
                ValidityVote::Invalid(_) => {},
                _ => {
                    count += 1;
                },
            }
            i += 1;
        }
        proof {
            assert(keys.take(total as int) =~= keys);
            lemma_count_where(keys, pred);
        }
        count
    }

    /// The number of votes against the candidate's validity.
    pub fn invalid_votes(&self) -> (count: usize)
        ensures
            count == self@.invalid_count(),
    {
        let total = self.validity_votes.len();
        let ghost keys = self.validity_votes.key_seq();
        let ghost pred = |a: AuthorityId| !self@.validity_votes[a].in_favour();
        let mut count: usize = 0;
        let mut i: usize = 0;
        while i < total
            invariant
                i <= total,
                total == keys.len(),
                keys == self.validity_votes.key_seq(),
                pred == (|a: AuthorityId| !self@.validity_votes[a].in_favour()),
                count == count_where(keys.take(i as int), pred),
                count <= i,
            decreases total - i,
        {
            let vote = self.validity_votes.value_at(i);
            proof {
                assert(keys.take(i + 1).drop_last() =~= keys.take(i as int));
                assert(keys.take(i + 1).last() == keys[i as int]);
            }
            match vote {
                ValidityVote::Invalid(_) => {
                    count += 1;
                },
                _ => {},
            }
            i += 1;
        }
        proof {
            assert(keys.take(total as int) =~= keys);
            lemma_count_where(keys, pred);
        }
        count
    }

    /// The number of votes for the availability of the candidate's data.
    pub fn available_votes(&self) -> (count: usize)
        ensures
            count == self@.available_count(),
    {
        self.availability_votes.len()
    }

    /// Whether the candidate may be included, given the votes that its
    /// group needs.
    pub fn can_be_included(&self, needed_validity: usize, needed_availability: usize) -> (yes: bool)
        ensures
            yes == self@.includable(needed_validity as nat, needed_availability as nat),
    {
        self.valid_votes() >= needed_validity && self.invalid_votes() == 0
            && self.available_votes() >= needed_availability
    }
}

} // verus!
