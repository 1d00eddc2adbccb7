//! The statement table: what the validators of one slot have said so far.
//!
//! The table takes signed statements one at a time. It checks the signature
//! and the sender's right to speak, records the first provable fault of each
//! validator, tallies the votes on each candidate, and keeps votes on
//! candidates it has not seen until their proposal arrives.

use vstd::prelude::*;
use crate::batch::{fitting, statement_views, total_size, StatementBatch};
use crate::candidate::{CandidateData, CandidateView, ValidityVote};
use crate::context::{ContextView, TableContext};
use crate::misbehavior::{clash, find_clash, Misbehavior, MisbehaviorView};
use crate::primitives::{self, bytes_eq, AuthorityId, CandidateReceiptView, ParaId, Signature};
use crate::statement::{
    check_statement_signature, signature_valid, SignedStatement, SignedStatementView, Statement,
    StatementView,
};
use crate::vec_map::{Key, VecMap};

verus! {

/// What an accepted statement was about.
#[derive(Clone, Copy, Debug, PartialEq, Eq)]
pub struct Summary {
    /// The digest of the candidate.
    pub candidate: primitives::Hash,
    /// The parachain of the candidate.
    pub group_id: ParaId,
}

/// A validator in its role as validity guarantor of one parachain.
#[derive(Clone, Copy, Debug)]
pub struct Seat {
    /// The validator.
    pub authority: AuthorityId,
    /// The parachain.
    pub group: ParaId,
}

impl Key for Seat {
    fn same(&self, other: &Self) -> (same: bool) {
        let same = bytes_eq(&self.authority.0, &other.authority.0) && self.group.0 == other.group.0;
        assert(same == (*self == *other));
        same
    }
}

/// Whether two statements are the same vote: of one kind, on one digest.
/// A proposal is the same vote as no statement.
pub open spec fn same_vote(a: StatementView, b: StatementView) -> bool {
    match (a, b) {
        (StatementView::Valid(x), StatementView::Valid(y)) => x == y,
        (StatementView::Invalid(x), StatementView::Invalid(y)) => x == y,
        (StatementView::Available(x), StatementView::Available(y)) => x == y,
        _ => false,
    }
}

/// Whether `pending` holds the vote of `statement` by the same sender.
pub open spec fn pending_has(pending: Seq<SignedStatementView>, statement: SignedStatementView) -> bool {
    exists|i: int|
        0 <= i < pending.len() && (#[trigger] pending[i]).sender == statement.sender && same_vote(
            pending[i].statement,
            statement.statement,
        )
}

/// `proposals` with `proposal` on record for `seat`, unless the seat has a
/// proposal on record.
pub open spec fn first_proposal(
    proposals: Map<Seat, (primitives::Hash, Signature)>,
    seat: Seat,
    proposal: (primitives::Hash, Signature),
) -> Map<Seat, (primitives::Hash, Signature)> {
    if proposals.contains_key(seat) {
        proposals
    } else {
        proposals.insert(seat, proposal)
    }
}

/// What a statement table holds.
pub struct TableView {
    /// The known candidates, by digest.
    pub candidates: Map<primitives::Hash, CandidateView>,
    /// The first candidate that each validator proposed for each parachain:
    /// its digest and the signature of the proposal.
    pub proposals: Map<Seat, (primitives::Hash, Signature)>,
    /// The first provable fault of each validator.
    pub misbehavior: Map<AuthorityId, MisbehaviorView>,
    /// Votes on digests that no proposal has made known yet, oldest first.
    pub pending: Seq<SignedStatementView>,
    /// Accepted proposals that no batch has taken yet, oldest first.
    pub unsent_candidates: Seq<SignedStatementView>,
    /// Accepted votes that no batch has taken yet, oldest first.
    pub unsent_votes: Seq<SignedStatementView>,
}

impl TableView {
    /// The table that holds nothing.
    pub open spec fn empty() -> TableView {
        TableView {
            candidates: Map::empty(),
            proposals: Map::empty(),
            misbehavior: Map::empty(),
            pending: Seq::empty(),
            unsent_candidates: Seq::empty(),
            unsent_votes: Seq::empty(),
        }
    }

    /// Records `fault` for `author` unless a fault of `author` is on record.
    pub open spec fn note_misbehavior(self, author: AuthorityId, fault: MisbehaviorView) -> TableView {
        if self.misbehavior.contains_key(author) {
            self
        } else {
            TableView { misbehavior: self.misbehavior.insert(author, fault), ..self }
        }
    }

    /// Casts a validity vote of the sender of `statement` on the known
    /// candidate with digest `digest`. A sender outside the candidate's
    /// validity group is at fault; so is one whose earlier vote on the
    /// candidate contradicts this one. A repeated vote changes nothing.
    pub open spec fn cast_validity(
        self,
        context: ContextView,
        statement: SignedStatementView,
        digest: primitives::Hash,
        vote: ValidityVote,
    ) -> (TableView, Option<Summary>) {
        let record = self.candidates[digest];
        if !context.is_member_of(statement.sender, record.group_id) {
            (
                self.note_misbehavior(
                    statement.sender,
                    MisbehaviorView::UnauthorizedStatement(statement),
                ),
                None,
            )
        } else if record.validity_votes.contains_key(statement.sender) {
            match clash(digest, record.validity_votes[statement.sender], vote) {
                Some(fault) => (self.note_misbehavior(statement.sender, fault), None),
                None => (self, None),
            }
        } else {
            (
                TableView {
                    candidates: self.candidates.insert(
                        digest,
                        CandidateView {
                            validity_votes: record.validity_votes.insert(statement.sender, vote),
                            ..record
                        },
                    ),
                    ..self
                },
                Some(Summary { candidate: digest, group_id: record.group_id }),
            )
        }
    }

    /// Puts `statement` among the votes that await a batch, if `outcome`
    /// says that it was accepted.
    pub open spec fn queue_vote(
        outcome: (TableView, Option<Summary>),
        statement: SignedStatementView,
    ) -> (TableView, Option<Summary>) {
        if outcome.1.is_some() {
            (
                TableView { unsent_votes: outcome.0.unsent_votes.push(statement), ..outcome.0 },
                outcome.1,
            )
        } else {
            outcome
        }
    }

    /// Imports a vote on a candidate that the table knows.
    pub open spec fn import_vote(self, context: ContextView, statement: SignedStatementView) -> (
        TableView,
        Option<Summary>,
    ) {
        match statement.statement {
            StatementView::Candidate(_) => (self, None),
            StatementView::Valid(digest) => Self::queue_vote(
                self.cast_validity(
                    context,
                    statement,
                    digest,
                    ValidityVote::Valid(statement.signature),
                ),
                statement,
            ),
            StatementView::Invalid(digest) => Self::queue_vote(
                self.cast_validity(
                    context,
                    statement,
                    digest,
                    ValidityVote::Invalid(statement.signature),
                ),
                statement,
            ),
            StatementView::Available(digest) => {
                let record = self.candidates[digest];
                if !context.is_availability_guarantor_of(statement.sender, record.group_id) {
                    (
                        self.note_misbehavior(
                            statement.sender,
                            MisbehaviorView::UnauthorizedStatement(statement),
                        ),
                        None,
                    )
                } else if record.availability_votes.contains_key(statement.sender) {
                    (self, None)
                } else {
                    (
                        TableView {
                            candidates: self.candidates.insert(
                                digest,
                                CandidateView {
                                    availability_votes: record.availability_votes.insert(
                                        statement.sender,
                                        statement.signature,
                                    ),
                                    ..record
                                },
                            ),
                            unsent_votes: self.unsent_votes.push(statement),
                            ..self
                        },
                        Some(Summary { candidate: digest, group_id: record.group_id }),
                    )
                }
            },
        }
    }

    /// Goes through the votes in `queue`, oldest first: those on `digest`
    /// are imported, the others are put back among the pending votes.
    pub open spec fn replay(
        self,
        context: ContextView,
        queue: Seq<SignedStatementView>,
        digest: primitives::Hash,
    ) -> TableView
        decreases queue.len(),
    {
        if queue.len() == 0 {
            self
        } else {
            let next = if queue[0].statement.digest() == digest {
                self.import_vote(context, queue[0]).0
            } else {
                TableView { pending: self.pending.push(queue[0]), ..self }
            };
            next.replay(context, queue.drop_first(), digest)
        }
    }

    /// Imports the proposal of the candidate with receipt `receipt` and
    /// digest `digest`.
    pub open spec fn import_candidate(
        self,
        context: ContextView,
        statement: SignedStatementView,
        receipt: CandidateReceiptView,
        digest: primitives::Hash,
    ) -> (TableView, Option<Summary>) {
        let group = receipt.parachain_index;
        let seat = Seat { authority: statement.sender, group: group };
        let vote = ValidityVote::Implicit(statement.signature);
        if !context.is_member_of(statement.sender, group) {
            (
                self.note_misbehavior(
                    statement.sender,
                    MisbehaviorView::UnauthorizedStatement(statement),
                ),
                None,
            )
        } else if self.proposals.contains_key(seat) && self.proposals[seat].0 != digest {
            (
                self.note_misbehavior(
                    statement.sender,
                    MisbehaviorView::MultipleCandidates(
                        self.proposals[seat].0,
                        self.proposals[seat].1,
                        receipt,
                        statement.signature,
                    ),
                ),
                None,
            )
        } else if self.candidates.contains_key(digest) {
            let outcome = self.cast_validity(context, statement, digest, vote);
            if outcome.1.is_some() {
                (
                    TableView {
                        proposals: first_proposal(outcome.0.proposals, seat, (digest, statement.signature)),
                        unsent_candidates: outcome.0.unsent_candidates.push(statement),
                        ..outcome.0
                    },
                    outcome.1,
                )
            } else {
                outcome
            }
        } else {
            let record = CandidateView {
                group_id: group,
                receipt: receipt,
                proposer: statement.sender,
                validity_votes: Map::<AuthorityId, ValidityVote>::empty().insert(
                    statement.sender,
                    vote,
                ),
                availability_votes: Map::empty(),
            };
            let started = TableView {
                candidates: self.candidates.insert(digest, record),
                proposals: first_proposal(self.proposals, seat, (digest, statement.signature)),
                unsent_candidates: self.unsent_candidates.push(statement),
                pending: Seq::empty(),
                ..self
            };
            (
                started.replay(context, self.pending, digest),
                Some(Summary { candidate: digest, group_id: group }),
            )
        }
    }

    /// Imports `statement`, given the digest of its candidate and whether
    /// its signature verifies.
    ///
    /// A statement whose signature does not verify is dropped; its sender is
    /// at fault if it is a validator of the slot. A proposal is imported as
    /// such, with `digest` as the digest of its receipt. A vote on a known
    /// candidate is imported; a vote on an unknown digest is kept, once per
    /// sender and vote, until the proposal arrives.
    pub open spec fn import_resolved(
        self,
        context: ContextView,
        statement: SignedStatementView,
        digest: primitives::Hash,
        signature_ok: bool,
    ) -> (TableView, Option<Summary>) {
        if !signature_ok {
            if context.is_known(statement.sender) {
                (
                    self.note_misbehavior(
                        statement.sender,
                        MisbehaviorView::UnauthorizedStatement(statement),
                    ),
                    None,
                )
            } else {
                (self, None)
            }
        } else {
            match statement.statement {
                StatementView::Candidate(receipt) => self.import_candidate(
                    context,
                    statement,
                    receipt,
                    digest,
                ),
                _ => if self.candidates.contains_key(statement.statement.digest()) {
                    self.import_vote(context, statement)
                } else if pending_has(self.pending, statement) {
                    (self, None)
                } else {
                    (TableView { pending: self.pending.push(statement), ..self }, None)
                },
            }
        }
    }

    /// Imports `statement`: the digest of a proposed candidate is the hash
    /// of its receipt, and the signature is checked against the statement
    /// and the parent hash of the slot.
    pub open spec fn import(self, context: ContextView, statement: SignedStatementView) -> (
        TableView,
        Option<Summary>,
    ) {
        self.import_resolved(
            context,
            statement,
            statement.statement.digest(),
            signature_valid(statement, context.parent_hash),
        )
    }

    /// Whether the candidate with digest `digest` is known and may be
    /// included: it has the votes for validity that its group needs, none
    /// against, and the votes for availability that its group needs.
    pub open spec fn includable(self, context: ContextView, digest: primitives::Hash) -> bool {
        &&& self.candidates.contains_key(digest)
        &&& self.candidates[digest].includable(
            context.requisite_votes(self.candidates[digest].group_id).0,
            context.requisite_votes(self.candidates[digest].group_id).1,
        )
    }

    /// How many of the proposals that await a batch fit into `budget` bytes.
    pub open spec fn fitting_candidates(self, budget: nat) -> nat {
        fitting(self.unsent_candidates, budget)
    }

    /// How many of the votes that await a batch fit into `budget` bytes
    /// after the proposals. No vote is taken while a proposal is left
    /// behind, so that whoever gets a vote has got the proposal it is about.
    pub open spec fn fitting_votes(self, budget: nat) -> nat {
        let taken = self.fitting_candidates(budget);
        if taken == self.unsent_candidates.len() {
            fitting(self.unsent_votes, (budget - total_size(self.unsent_candidates)) as nat)
        } else {
            0
        }
    }

    /// The statements that a batch with `budget` bytes takes: proposals
    /// first, then votes, each oldest first.
    pub open spec fn batch_for(self, budget: nat) -> Seq<SignedStatementView> {
        self.unsent_candidates.take(self.fitting_candidates(budget) as int)
            + self.unsent_votes.take(self.fitting_votes(budget) as int)
    }

    /// The table after a batch with `budget` bytes has taken its statements.
    pub open spec fn after_batch(self, budget: nat) -> TableView {
        TableView {
            unsent_candidates: self.unsent_candidates.skip(self.fitting_candidates(budget) as int),
            unsent_votes: self.unsent_votes.skip(self.fitting_votes(budget) as int),
            ..self
        }
    }

    /// Whether the candidate with digest `a` comes before the one with
    /// digest `b`: by parachain, then by digest.
    pub open spec fn comes_before(self, a: primitives::Hash, b: primitives::Hash) -> bool {
        let group_a = self.candidates[a].group_id.0;
        let group_b = self.candidates[b].group_id.0;
        group_a < group_b || (group_a == group_b && a.rank() < b.rank())
    }

    /// Whether `digests` lists the candidates that may be included, each
    /// once, in ascending order of parachain and digest.
    pub open spec fn is_proposal_order(self, context: ContextView, digests: Seq<primitives::Hash>) -> bool {
        &&& forall|i: int| 0 <= i < digests.len() ==> self.includable(context, #[trigger] digests[i])
        &&& forall|i: int, j: int|
            0 <= i < j < digests.len() ==> self.comes_before(#[trigger] digests[i], #[trigger] digests[j])
        &&& forall|digest: primitives::Hash| #[trigger]
            self.includable(context, digest) ==> digests.contains(digest)
    }
}

/// The views of the candidate records of a map.
pub open spec fn candidate_views(candidates: Map<primitives::Hash, CandidateData>) -> Map<
    primitives::Hash,
    CandidateView,
> {
    candidates.map_values(|record: CandidateData| record@)
}

/// The views of the faults of a map.
pub open spec fn misbehavior_views(misbehavior: Map<AuthorityId, Misbehavior>) -> Map<
    AuthorityId,
    MisbehaviorView,
> {
    misbehavior.map_values(|fault: Misbehavior| fault@)
}

/// The statement table of one slot.
#[derive(Debug)]
pub struct Table {
    candidates: VecMap<primitives::Hash, CandidateData>,
    proposals: VecMap<Seat, (primitives::Hash, Signature)>,
    misbehavior: VecMap<AuthorityId, Misbehavior>,
    pending: Vec<SignedStatement>,
    unsent_candidates: Vec<SignedStatement>,
    unsent_votes: Vec<SignedStatement>,
}

impl View for Table {
    type V = TableView;

    closed spec fn view(&self) -> TableView {
        TableView {
            candidates: candidate_views(self.candidates@),
            proposals: self.proposals@,
            misbehavior: misbehavior_views(self.misbehavior@),
            pending: statement_views(self.pending@),
            unsent_candidates: statement_views(self.unsent_candidates@),
            unsent_votes: statement_views(self.unsent_votes@),
        }
    }
}

/// Tells whether two statements are the same vote.
fn is_same_vote(a: &Statement, b: &Statement) -> (same: bool)
    ensures
        same == same_vote(a@, b@),
{
    match (a, b) {
        (Statement::Valid(x), Statement::Valid(y)) => *x == *y,
        (Statement::Invalid(x), Statement::Invalid(y)) => *x == *y,
        (Statement::Available(x), Statement::Available(y)) => *x == *y,
        _ => false,
    }
}

impl Table {
    /// The table that holds nothing.
    pub fn new() -> (table: Table)
        ensures
            table@ == TableView::empty(),
    {
        let table = Table {
            candidates: VecMap::new(),
            proposals: VecMap::new(),
            misbehavior: VecMap::new(),
            pending: Vec::new(),
            unsent_candidates: Vec::new(),
            unsent_votes: Vec::new(),
        };
        assert(table@.candidates =~= Map::<primitives::Hash, CandidateView>::empty());
        assert(table@.misbehavior =~= Map::<AuthorityId, MisbehaviorView>::empty());
        assert(table@.pending =~= Seq::<SignedStatementView>::empty());
        assert(table@.unsent_candidates =~= Seq::<SignedStatementView>::empty());
        assert(table@.unsent_votes =~= Seq::<SignedStatementView>::empty());
        table
    }

    fn note_misbehavior(&mut self, author: AuthorityId, fault: Misbehavior)
        ensures
            final(self)@ == old(self)@.note_misbehavior(author, fault@),
    {
        if !self.misbehavior.contains_key(&author) {
            self.misbehavior.insert(author, fault);
            assert(self@.misbehavior =~= old(self)@.misbehavior.insert(author, fault@));
        }
    }

    fn cast_validity(
        &mut self,
        context: &TableContext,
        statement: &SignedStatement,
        digest: primitives::Hash,
        vote: ValidityVote,
    ) -> (summary: Option<Summary>)
        requires
            old(self)@.candidates.contains_key(digest),
        ensures
            (final(self)@, summary) == old(self)@.cast_validity(
                context@,
                statement@,
                digest,
                vote,
            ),
            final(self)@.candidates.contains_key(digest),
    {
        let sender = statement.sender;
        let (group, existing) = match self.candidates.get(&digest) {
            Some(record) => (
                record.group_id,
                match record.validity_votes.get(&sender) {
                    Some(vote) => Some(*vote),
                    None => None,
                },
            ),
            None => {
                return None;
            },
        };
        if !context.is_member_of(&sender, &group) {
            self.note_misbehavior(sender, Misbehavior::UnauthorizedStatement(statement.clone()));
            return None;
        }
        match existing {
            Some(earlier) => {
                match find_clash(digest, earlier, vote) {
                    Some(fault) => {
                        self.note_misbehavior(sender, fault);
                    },
                    None => {},
                }
                None
            },
            None => {
                match self.candidates.remove(&digest) {
                    Some(record) => {
                        let mut record = record;
                        let ghost before = record@;
                        record.validity_votes.insert(sender, vote);
                        let ghost after = record@;
                        self.candidates.insert(digest, record);
                        assert(self@.candidates =~= old(self)@.candidates.insert(digest, after));
                    },
                    None => {},
                }
                Some(Summary { candidate: digest, group_id: group })
            },
        }
    }

    fn import_vote(&mut self, context: &TableContext, statement: SignedStatement) -> (summary:
        Option<Summary>)
        requires
            old(self)@.candidates.contains_key(statement@.statement.digest()),
        ensures
            (final(self)@, summary) == old(self)@.import_vote(context@, statement@),
            forall|digest: primitives::Hash| #[trigger]
                old(self)@.candidates.contains_key(digest) ==> final(self)@.candidates.contains_key(digest),
    {
        let sender = statement.sender;
        let signature = statement.signature;
        match statement.statement {
            Statement::Candidate(_) => None,
            Statement::Valid(digest) => {
                let summary = self.cast_validity(
                    context,
                    &statement,
                    digest,
                    ValidityVote::Valid(signature),
                );
                if summary.is_some() {
                    self.unsent_votes.push(statement);
                    assert(self@.unsent_votes =~= old(self)@.unsent_votes.push(statement@));
                }
                summary
            },
            Statement::Invalid(digest) => {
                let summary = self.cast_validity(
                    context,
                    &statement,
                    digest,
                    ValidityVote::Invalid(signature),
                );
                if summary.is_some() {
                    self.unsent_votes.push(statement);
                    assert(self@.unsent_votes =~= old(self)@.unsent_votes.push(statement@));
                }
                summary
            },
            Statement::Available(digest) => {
                let (group, voted) = match self.candidates.get(&digest) {
                    Some(record) => (
                        record.group_id,
                        record.availability_votes.contains_key(&sender),
                    ),
                    None => {
                        return None;
                    },
                };
                if !context.is_availability_guarantor_of(&sender, &group) {
                    self.note_misbehavior(sender, Misbehavior::UnauthorizedStatement(statement));
                    return None;
                }
                if voted {
                    return None;
                }
                match self.candidates.remove(&digest) {
                    Some(record) => {
                        let mut record = record;
                        record.availability_votes.insert(sender, signature);
                        let ghost after = record@;
                        self.candidates.insert(digest, record);
                        assert(self@.candidates =~= old(self)@.candidates.insert(digest, after));
                    },
                    None => {},
                }
                self.unsent_votes.push(statement);
                assert(self@.unsent_votes =~= old(self)@.unsent_votes.push(statement@));
                Some(Summary { candidate: digest, group_id: group })
            },
        }
    }

    fn replay(&mut self, context: &TableContext, queue: Vec<SignedStatement>, digest: primitives::Hash)
        requires
            old(self)@.candidates.contains_key(digest),
        ensures
            final(self)@ == old(self)@.replay(context@, statement_views(queue@), digest),
            final(self)@.candidates.contains_key(digest),
    {
        let ghost start = self@;
        let ghost views = statement_views(queue@);
        let mut i: usize = 0;
        assert(views.skip(0) =~= views);
        while i < queue.len()
            invariant
                i <= queue.len(),
                views == statement_views(queue@),
                self@.candidates.contains_key(digest),
                self@.replay(context@, views.skip(i as int), digest) == start.replay(
                    context@,
                    views,
                    digest,
                ),
            decreases queue.len() - i,
        {
            let statement = queue[i].clone();
            proof {
                assert(views.skip(i as int).drop_first() =~= views.skip(i + 1));
                assert(views.skip(i as int)[0] == views[i as int]);
                assert(views[i as int] == statement@);
            }
            let subject = statement.statement.digest();
            let ghost before = self@;
            if subject == digest {
                self.import_vote(context, statement);
            } else {
                self.pending.push(statement);
                assert(self@.pending =~= before.pending.push(statement@));
            }
            i += 1;
        }
    }

    fn import_candidate(
        &mut self,
        context: &TableContext,
        statement: SignedStatement,
        digest: primitives::Hash,
    ) -> (summary: Option<Summary>)
        requires
            statement.statement is Candidate,
        ensures
            statement@.statement matches StatementView::Candidate(receipt) && (
            final(self)@,
            summary,
        ) == old(self)@.import_candidate(context@, statement@, receipt, digest),
    {
        let sender = statement.sender;
        let signature = statement.signature;
        let receipt = match &statement.statement {
            Statement::Candidate(receipt) => receipt.clone(),
            _ => {
                return None;
            },
        };
        let group = receipt.parachain_index;
        let seat = Seat { authority: sender, group: group };
        let vote = ValidityVote::Implicit(signature);
        if !context.is_member_of(&sender, &group) {
            self.note_misbehavior(sender, Misbehavior::UnauthorizedStatement(statement));
            return None;
        }
        let earlier = match self.proposals.get(&seat) {
            Some(proposal) => Some(*proposal),
            None => None,
        };
        match earlier {
            Some(proposal) => {
                if !(proposal.0 == digest) {
                    self.note_misbehavior(
                        sender,
                        Misbehavior::MultipleCandidates(proposal.0, proposal.1, receipt, signature),
                    );
                    return None;
                }
            },
            None => {},
        }
        if self.candidates.contains_key(&digest) {
            let summary = self.cast_validity(context, &statement, digest, vote);
            if summary.is_some() {
                let ghost before = self@;
                if earlier.is_none() {
                self.proposals.insert(seat, (digest, signature));
            }
                self.unsent_candidates.push(statement);
                assert(self@.unsent_candidates =~= before.unsent_candidates.push(statement@));
            }
            summary
        } else {
            let mut validity_votes: VecMap<AuthorityId, ValidityVote> = VecMap::new();
            validity_votes.insert(sender, vote);
            let record = CandidateData {
                group_id: group,
                candidate: receipt,
                proposer: sender,
                validity_votes: validity_votes,
                availability_votes: VecMap::new(),
            };
            let ghost record_view = record@;
            self.candidates.insert(digest, record);
            if earlier.is_none() {
                self.proposals.insert(seat, (digest, signature));
            }
            self.unsent_candidates.push(statement);
            let mut queue: Vec<SignedStatement> = Vec::new();
            std::mem::swap(&mut queue, &mut self.pending);
            proof {
                assert(self@.candidates =~= old(self)@.candidates.insert(digest, record_view));
                assert(self@.unsent_candidates =~= old(self)@.unsent_candidates.push(statement@));
                assert(self@.pending =~= Seq::<SignedStatementView>::empty());
                assert(statement_views(queue@) == old(self)@.pending);
            }
            self.replay(context, queue, digest);
            Some(Summary { candidate: digest, group_id: group })
        }
    }

    fn has_pending(&self, statement: &SignedStatement) -> (found: bool)
        ensures
            found == pending_has(self@.pending, statement@),
    {
        let ghost views = statement_views(self.pending@);
        let mut i: usize = 0;
        while i < self.pending.len()
            invariant
                i <= self.pending.len(),
                views == statement_views(self.pending@),
                forall|j: int|
                    0 <= j < i ==> !((#[trigger] views[j]).sender == statement@.sender && same_vote(
                        views[j].statement,
                        statement@.statement,
                    )),
            decreases self.pending.len() - i,
        {
            let held = &self.pending[i];
            assert(views[i as int] == held@);
            if held.sender == statement.sender && is_same_vote(&held.statement, &statement.statement) {
                return true;
            }
            i += 1;
        }
        false
    }

    /// Imports `statement`, given the digest of its candidate and whether
    /// its signature verifies, and tells what it was about if it was
    /// accepted and new.
    ///
    /// For a proposal, `digest` is taken as the digest of the receipt; for a
    /// vote it is not looked at.
    pub fn import_resolved(
        &mut self,
        context: &TableContext,
        statement: SignedStatement,
        digest: primitives::Hash,
        signature_ok: bool,
    ) -> (summary: Option<Summary>)
        ensures
            (final(self)@, summary) == old(self)@.import_resolved(
                context@,
                statement@,
                digest,
                signature_ok,
            ),
    {
        if !signature_ok {
            if context.is_known(&statement.sender) {
                let sender = statement.sender;
                self.note_misbehavior(sender, Misbehavior::UnauthorizedStatement(statement));
            }
            return None;
        }
        match &statement.statement {
            Statement::Candidate(_) => self.import_candidate(context, statement, digest),
            _ => {
                let subject = statement.statement.digest();
                if self.candidates.contains_key(&subject) {
                    self.import_vote(context, statement)
                } else if self.has_pending(&statement) {
                    None
                } else {
                    self.pending.push(statement);
                    assert(self@.pending =~= old(self)@.pending.push(statement@));
                    None
                }
            },
        }
    }

    /// Imports `statement` and tells what it was about if it was accepted
    /// and new.
    pub fn import_statement(&mut self, context: &TableContext, statement: SignedStatement) -> (summary:
        Option<Summary>)
        ensures
            (final(self)@, summary) == old(self)@.import(context@, statement@),
    {
        let digest = statement.statement.digest();
        let signature_ok = check_statement_signature(&statement, &context.parent_hash);
        self.import_resolved(context, statement, digest, signature_ok)
    }

    /// The receipt of the candidate with digest `digest`, if it is known.
    pub fn get_candidate(&self, digest: &primitives::Hash) -> (found: Option<
        &crate::primitives::CandidateReceipt,
    >)
        ensures
            match found {
                Some(receipt) => self@.candidates.contains_key(*digest) && receipt@
                    == self@.candidates[*digest].receipt,
                None => !self@.candidates.contains_key(*digest),
            },
    {
        match self.candidates.get(digest) {
            Some(record) => Some(&record.candidate),
            None => None,
        }
    }

    /// The record of the candidate with digest `digest`, if it is known.
    pub fn get_candidate_data(&self, digest: &primitives::Hash) -> (found: Option<&CandidateData>)
        ensures
            match found {
                Some(record) => self@.candidates.contains_key(*digest) && record@
                    == self@.candidates[*digest],
                None => !self@.candidates.contains_key(*digest),
            },
    {
        self.candidates.get(digest)
    }

    /// The first provable fault of each validator.
    pub fn get_misbehavior(&self) -> (faults: &VecMap<AuthorityId, Misbehavior>)
        ensures
            misbehavior_views(faults@) == self@.misbehavior,
    {
        &self.misbehavior
    }

    /// Tells whether the candidate with digest `digest` is known and may be
    /// included.
    pub fn candidate_includable(&self, digest: &primitives::Hash, context: &TableContext) -> (yes:
        bool)
        ensures
            yes == self@.includable(context@, *digest),
    {
        match self.candidates.get(digest) {
            Some(record) => {
                let needed = context.requisite_votes(&record.group_id);
                record.can_be_included(needed.0, needed.1)
            },
            None => false,
        }
    }

    /// Fills `batch` with statements that no batch has taken yet, as far as
    /// its bytes allow: proposals first, then votes, oldest first, stopping
    /// at the first statement that does not fit.
    pub fn fill_batch(&mut self, batch: &mut StatementBatch)
        ensures
            final(self)@ == old(self)@.after_batch(old(batch).remaining as nat),
            statement_views(final(batch).statements@) == statement_views(old(batch).statements@)
                + old(self)@.batch_for(old(batch).remaining as nat),
            final(batch).remaining == old(batch).remaining - total_size(
                old(self)@.batch_for(old(batch).remaining as nat),
            ),
    {
        let ghost budget = batch.remaining as nat;
        let ghost candidates = self@.unsent_candidates;
        let ghost votes = self@.unsent_votes;
        let ghost held = statement_views(batch.statements@);
        let emptied = batch.take_from(&mut self.unsent_candidates);
        let ghost taken = fitting(candidates, budget);
        if emptied {
            assert(candidates.take(taken as int) =~= candidates);
            let ghost left = batch.remaining as nat;
            batch.take_from(&mut self.unsent_votes);
            proof {
                let voted = fitting(votes, left);
                crate::batch::lemma_total_size_add(candidates, votes.take(voted as int));
                assert(held + candidates + votes.take(voted as int) =~= held + (candidates
                    + votes.take(voted as int)));
            }
        } else {
            assert(votes.take(0) =~= Seq::<SignedStatementView>::empty());
            assert(votes.skip(0) =~= votes);
            assert(candidates.take(taken as int) + votes.take(0) =~= candidates.take(taken as int));
        }
    }

    /// The positions, in the walk of the candidates, of those that may be
    /// included, in ascending order of parachain and digest.
    fn proposal_order(&self, context: &TableContext) -> (order: Vec<usize>)
        ensures
            forall|k: int| 0 <= k < order.len() ==> (#[trigger] order[k]) < self.candidates.key_seq().len(),
            self@.is_proposal_order(
                context@,
                Seq::new(order.len() as nat, |k: int| self.candidates.key_seq()[order[k] as int]),
            ),
    {
        let total = self.candidates.len();
        let ghost keys = self.candidates.key_seq();
        let ghost view = self@;
        let mut order: Vec<usize> = Vec::new();
        let mut i: usize = 0;
        while i < total
            invariant
                i <= total,
                total == keys.len(),
                keys == self.candidates.key_seq(),
                keys.no_duplicates(),
                keys.to_set() == self.candidates@.dom(),
                view == self@,
                forall|k: int| 0 <= k < order.len() ==> (#[trigger] order[k]) < i,
                forall|k: int| 0 <= k < order.len() ==> view.includable(context@, keys[#[trigger] order[k] as int]),
                forall|k: int, l: int|
                    0 <= k < l < order.len() ==> view.comes_before(
                        keys[#[trigger] order[k] as int],
                        keys[#[trigger] order[l] as int],
                    ),
                forall|j: int|
                    0 <= j < i && view.includable(context@, #[trigger] keys[j]) ==> exists|k: int|
                        0 <= k < order.len() && #[trigger] order[k] == j,
            decreases total - i,
        {
            let digest = self.candidates.key_at(i);
            let record = self.candidates.value_at(i);
            let needed = context.requisite_votes(&record.group_id);
            if record.can_be_included(needed.0, needed.1) {
                let mut at: usize = 0;
                while at < order.len()
                    invariant
                        at <= order.len(),
                        i < total,
                        total == keys.len(),
                        keys == self.candidates.key_seq(),
                        keys.no_duplicates(),
                        view == self@,
                        digest == keys[i as int],
                        record@ == view.candidates[digest],
                        view.candidates.contains_key(digest),
                        forall|k: int| 0 <= k < order.len() ==> (#[trigger] order[k]) < i,
                        forall|k: int|
                            0 <= k < order.len() ==> view.candidates.contains_key(
                                keys[#[trigger] order[k] as int],
                            ),
                        forall|k: int|
                            0 <= k < at ==> view.comes_before(keys[#[trigger] order[k] as int], digest),
                    ensures
                        at <= order.len(),
                        forall|k: int|
                            0 <= k < at ==> view.comes_before(keys[#[trigger] order[k] as int], digest),
                        at < order.len() ==> view.comes_before(digest, keys[order[at as int] as int]),
                    decreases order.len() - at,
                {
                    let other_at = order[at];
                    let other = self.candidates.key_at(other_at);
                    let other_record = self.candidates.value_at(other_at);
                    let before = other_record.group_id.0 < record.group_id.0 || (
                    other_record.group_id.0 == record.group_id.0 && other.precedes(&digest));
                    if !before {
                        proof {
                            assert(other != digest);
                            if other.rank() == digest.rank() {
                                primitives::Hash::lemma_rank_injective(other, digest);
                            }
                        }
                        break ;
                    }
                    at += 1;
                }
                let ghost old_order = order@;
                order.insert(at, i);
                proof {
                    assert forall|k: int, l: int| 0 <= k < l < order.len() implies view.comes_before(
                        keys[#[trigger] order[k] as int],
                        keys[#[trigger] order[l] as int],
                    ) by {
                        let ok = if k < at { k } else { k - 1 };
                        let ol = if l < at { l } else { l - 1 };
                        if k == at {
                            assert(order[l] == old_order[l - 1]);
                            if l - 1 > at {
                                assert(view.comes_before(
                                    keys[old_order[at as int] as int],
                                    keys[old_order[l - 1] as int],
                                ));
                            }
                        } else if l == at {
                            assert(order[k] == old_order[k]);
                        } else {
                            assert(order[k] == old_order[ok]);
                            assert(order[l] == old_order[ol]);
                        }
                    }
                    assert forall|j: int|
                        0 <= j < i + 1 && view.includable(context@, #[trigger] keys[j]) implies exists|
                        k: int,
                    |
                        0 <= k < order.len() && #[trigger] order[k] == j by {
                        if j == i {
                            assert(order[at as int] == j);
                        } else {
                            let k0 = choose|k: int| 0 <= k < old_order.len() && #[trigger] old_order[k] == j;
                            let k1 = if k0 < at { k0 } else { k0 + 1 };
                            assert(order[k1] == j);
                        }
                    }
                    assert forall|k: int| 0 <= k < order.len() implies (#[trigger] order[k]) < i + 1
                        && view.includable(context@, keys[order[k] as int]) by {
                        if k != at {
                            let ok = if k < at { k } else { k - 1 };
                            assert(order[k] == old_order[ok]);
                        }
                    }
                }
            }
            i += 1;
        }
        proof {
            let digests = Seq::new(order.len() as nat, |k: int| keys[order[k] as int]);
            assert forall|digest: primitives::Hash| #[trigger]
                view.includable(context@, digest) implies digests.contains(digest) by {
                assert(keys.to_set().contains(digest));
                let j = choose|j: int| 0 <= j < keys.len() && keys[j] == digest;
                let k = choose|k: int| 0 <= k < order.len() && #[trigger] order[k] == j;
                assert(digests[k] == digest);
            }
        }
        order
    }

    /// The digests of the candidates that may be included, in ascending
    /// order of parachain and digest.
    pub fn proposed_digests(&self, context: &TableContext) -> (digests: Vec<primitives::Hash>)
        ensures
            self@.is_proposal_order(context@, digests@),
    {
        let order = self.proposal_order(context);
        let ghost keys = self.candidates.key_seq();
        let ghost expected = Seq::new(order.len() as nat, |k: int| keys[order[k] as int]);
        let mut digests: Vec<primitives::Hash> = Vec::new();
        let mut k: usize = 0;
        while k < order.len()
            invariant
                k <= order.len(),
                keys == self.candidates.key_seq(),
                expected == Seq::new(order.len() as nat, |k: int| keys[order[k] as int]),
                forall|k: int| 0 <= k < order.len() ==> (#[trigger] order[k]) < keys.len(),
                digests@ == expected.take(k as int),
            decreases order.len() - k,
        {
            digests.push(self.candidates.key_at(order[k]));
            assert(expected.take(k + 1) =~= expected.take(k as int).push(expected[k as int]));
            k += 1;
        }
        assert(expected.take(order.len() as int) =~= expected);
        digests
    }

    /// The receipts of the candidates that may be included, in ascending
    /// order of parachain and digest.
    pub fn proposed_candidates(&self, context: &TableContext) -> (receipts: Vec<
        &crate::primitives::CandidateReceipt,
    >)
        ensures
            exists|digests: Seq<primitives::Hash>|
                {
                    &&& #[trigger] self@.is_proposal_order(context@, digests)
                    &&& digests.len() == receipts.len()
                    &&& forall|k: int|
                        0 <= k < receipts.len() ==> (#[trigger] receipts[k])@
                            == self@.candidates[digests[k]].receipt
                },
    {
        let order = self.proposal_order(context);
        let ghost keys = self.candidates.key_seq();
        let ghost expected = Seq::new(order.len() as nat, |k: int| keys[order[k] as int]);
        let mut receipts: Vec<&crate::primitives::CandidateReceipt> = Vec::new();
        let mut k: usize = 0;
        while k < order.len()
            invariant
                k <= order.len(),
                keys == self.candidates.key_seq(),
                expected == Seq::new(order.len() as nat, |k: int| keys[order[k] as int]),
                forall|k: int| 0 <= k < order.len() ==> (#[trigger] order[k]) < keys.len(),
                receipts.len() == k,
                forall|j: int|
                    0 <= j < k ==> (#[trigger] receipts[j])@ == self@.candidates[expected[j]].receipt,
            decreases order.len() - k,
        {
            let record = self.candidates.value_at(order[k]);
            receipts.push(&record.candidate);
            k += 1;
        }
        receipts
    }
}

} // verus!
