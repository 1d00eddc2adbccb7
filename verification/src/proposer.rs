//! Making and judging proposals for the next relay-chain block.
//!
//! Whatever needs the chain state, the transaction pool or the network is
//! done by the caller. Here are the decisions: whether a proposal passes the
//! checks that need no chain state, which transactions go into a block,
//! which faults of the voting layer are reported, and when to bake.

use vstd::prelude::*;
use crate::collation::Collation;
use crate::crypto::Pair;
use crate::dynamic_inclusion::DynamicInclusion;
use crate::error::Error;
use crate::group_info::make_group_info;
use crate::primitives::{self, AuthorityId, BlockNumber, DutyRoster, Signature, Timestamp};
use crate::shared_table::SharedTable;
use crate::statement::{Statement, StatementView};
use crate::table::TableView;

verus! {

/// The most bytes that the extrinsics of one block may take.
pub const MAX_TRANSACTIONS_SIZE: usize = 4 * 1024 * 1024;

/// How many seconds the timestamp of a proposal may be ahead of the clock.
pub const MAX_TIMESTAMP_DRIFT: Timestamp = 4;

/// What the proposer looks at in a block that was proposed.
#[derive(Debug)]
pub struct Proposal {
    /// The hash of the block that the proposal builds on.
    pub parent_hash: primitives::Hash,
    /// The timestamp that the proposal sets.
    pub timestamp: Timestamp,
    /// The encoded size of each extrinsic of the proposal, in bytes.
    pub extrinsic_sizes: Vec<usize>,
}

/// The sum of the given sizes.
pub open spec fn sum_sizes(sizes: Seq<usize>) -> nat
    decreases sizes.len(),
{
    if sizes.len() == 0 {
        0
    } else {
        sum_sizes(sizes.drop_last()) + sizes.last() as nat
    }
}

/// `size`, or the largest size that can be told if `size` is beyond it.
pub open spec fn capped(size: nat) -> usize {
    if size > usize::MAX {
        usize::MAX
    } else {
        size as usize
    }
}

/// What the checks that need no chain state say of a proposal: in this
/// order, that it is a block of this chain, that its extrinsics are not
/// larger than a block may hold, that it builds on the expected parent, and
/// that its timestamp is not too far ahead of `now`. A timestamp in the past
/// is accepted.
pub open spec fn check_proposal(
    decoded: bool,
    parent_hash: primitives::Hash,
    timestamp: Timestamp,
    extrinsic_sizes: Seq<usize>,
    now: Timestamp,
    expected_parent: primitives::Hash,
) -> Result<(), Error> {
    if !decoded {
        Err(Error::ProposalNotForPolkadot)
    } else if sum_sizes(extrinsic_sizes) > MAX_TRANSACTIONS_SIZE {
        Err(Error::ProposalTooLarge(capped(sum_sizes(extrinsic_sizes))))
    } else if parent_hash != expected_parent {
        Err(Error::WrongParentHash(expected_parent, parent_hash))
    } else if timestamp > now + MAX_TIMESTAMP_DRIFT {
        Err(Error::TimestampInFuture)
    } else {
        Ok(())
    }
}

/// Adds up the given sizes, stopping at the largest size that can be told.
pub fn total_size_of(sizes: &Vec<usize>) -> (total: usize)
    ensures
        total == capped(sum_sizes(sizes@)),
{
    let mut total: usize = 0;
    let mut i: usize = 0;
    assert(sizes@.take(0) =~= Seq::<usize>::empty());
    while i < sizes.len()
        invariant
            i <= sizes.len(),
            total == capped(sum_sizes(sizes@.take(i as int))),
        decreases sizes.len() - i,
    {
        assert(sizes@.take(i + 1).drop_last() =~= sizes@.take(i as int));
        total = total.saturating_add(sizes[i]);
        i += 1;
    }
    assert(sizes@.take(sizes.len() as int) =~= sizes@);
    total
}

/// Runs the checks on a proposal that need no chain state. `proposal` is
/// `None` where the block could not be read as a block of this chain.
pub fn evaluate_proposal(proposal: Option<&Proposal>, now: Timestamp, parent_hash: &primitives::Hash) -> (result:
    Result<(), Error>)
    ensures
        result == (match proposal {
            Some(proposal) => check_proposal(
                true,
                proposal.parent_hash,
                proposal.timestamp,
                proposal.extrinsic_sizes@,
                now,
                *parent_hash,
            ),
            None => Err(Error::ProposalNotForPolkadot),
        }),
{
    let proposal = match proposal {
        Some(proposal) => proposal,
        None => {
            return Err(Error::ProposalNotForPolkadot);
        },
    };
    let transactions_size = total_size_of(&proposal.extrinsic_sizes);
    if transactions_size > MAX_TRANSACTIONS_SIZE {
        return Err(Error::ProposalTooLarge(transactions_size));
    }
    if !(proposal.parent_hash == *parent_hash) {
        return Err(Error::WrongParentHash(*parent_hash, proposal.parent_hash));
    }
    if proposal.timestamp > now && proposal.timestamp - now > MAX_TIMESTAMP_DRIFT {
        return Err(Error::TimestampInFuture);
    }
    Ok(())
}

/// The verdict on a proposal that passed the checks without chain state,
/// given what the execution of the block by the chain-state client brought:
/// the proposal is good if the client accepts it, and the client's error is
/// handed on if it does not.
pub fn conclude_evaluation(checked: Result<(), Error>, executed: Result<(), String>) -> (verdict:
    Result<bool, Error>)
    ensures
        verdict == (match checked {
            Err(error) => Err::<bool, Error>(error),
            Ok(()) => match executed {
                Ok(()) => Ok(true),
                Err(message) => Err(Error::ClientError(message)),
            },
        }),
{
    match checked {
        Err(error) => Err(error),
        Ok(()) => match executed {
            Ok(()) => Ok(true),
            Err(message) => Err(Error::ClientError(message)),
        },
    }
}

/// A transaction that waits in the pool.
#[derive(Clone, Copy, Debug)]
pub struct PendingTransaction {
    /// The hash of the transaction.
    pub hash: primitives::Hash,
    /// The encoded size of the transaction, in bytes.
    pub encoded_size: usize,
}

/// What to do with a transaction that the pool offers.
#[derive(Clone, Copy, Debug, PartialEq, Eq, Structural)]
pub enum Offer {
    /// The transaction is larger than any block may hold: pass over it and
    /// remove it from the pool.
    Cull,
    /// The block is full: stop.
    Stop,
    /// Push the transaction into the block.
    Push,
}

/// What a selection of transactions holds.
pub struct SelectionView {
    /// The bytes pushed so far.
    pub pending_size: nat,
    /// The hashes of the transactions to remove from the pool.
    pub unqueue_invalid: Seq<primitives::Hash>,
}

impl SelectionView {
    /// What to do with a transaction of `encoded_size` bytes.
    pub open spec fn offer(self, encoded_size: nat) -> Offer {
        if encoded_size > MAX_TRANSACTIONS_SIZE {
            Offer::Cull
        } else if self.pending_size + encoded_size > MAX_TRANSACTIONS_SIZE {
            Offer::Stop
        } else {
            Offer::Push
        }
    }

    /// The selection after `transaction` was offered: a transaction that is
    /// passed over is marked for removal.
    pub open spec fn after_offer(self, transaction: PendingTransaction) -> SelectionView {
        if self.offer(transaction.encoded_size as nat) == Offer::Cull {
            SelectionView {
                unqueue_invalid: self.unqueue_invalid.push(transaction.hash),
                ..self
            }
        } else {
            self
        }
    }

    /// The selection after the block builder took or refused `transaction`:
    /// what it took counts towards the size of the block, what it refused
    /// is marked for removal.
    pub open spec fn after_push(self, transaction: PendingTransaction, accepted: bool) -> SelectionView {
        if accepted {
            SelectionView {
                pending_size: self.pending_size + transaction.encoded_size as nat,
                ..self
            }
        } else {
            SelectionView {
                unqueue_invalid: self.unqueue_invalid.push(transaction.hash),
                ..self
            }
        }
    }
}

/// Chooses the transactions of a block from what the pool offers, in the
/// order in which the pool offers it.
#[derive(Debug)]
pub struct TransactionSelection {
    pending_size: usize,
    unqueue_invalid: Vec<primitives::Hash>,
}

impl View for TransactionSelection {
    type V = SelectionView;

    closed spec fn view(&self) -> SelectionView {
        SelectionView {
            pending_size: self.pending_size as nat,
            unqueue_invalid: self.unqueue_invalid@,
        }
    }
}

impl TransactionSelection {
    /// The selection for an empty block.
    pub fn new() -> (selection: Self)
        ensures
            selection@.pending_size == 0,
            selection@.unqueue_invalid == Seq::<primitives::Hash>::empty(),
    {
        TransactionSelection { pending_size: 0, unqueue_invalid: Vec::new() }
    }

    /// Says what to do with `transaction`, the next one that the pool
    /// offers.
    pub fn offer(&mut self, transaction: &PendingTransaction) -> (offer: Offer)
        ensures
            offer == old(self)@.offer(transaction.encoded_size as nat),
            final(self)@ == old(self)@.after_offer(*transaction),
    {
        if transaction.encoded_size > MAX_TRANSACTIONS_SIZE {
            self.unqueue_invalid.push(transaction.hash);
            Offer::Cull
        } else if self.pending_size > MAX_TRANSACTIONS_SIZE || MAX_TRANSACTIONS_SIZE
            - self.pending_size < transaction.encoded_size {
            Offer::Stop
        } else {
            Offer::Push
        }
    }

    /// Takes note of whether the block builder took `transaction`.
    pub fn pushed(&mut self, transaction: &PendingTransaction, accepted: bool)
        requires
            old(self)@.offer(transaction.encoded_size as nat) == Offer::Push,
        ensures
            final(self)@ == old(self)@.after_push(*transaction, accepted),
            final(self)@.pending_size <= MAX_TRANSACTIONS_SIZE,
    {
        if accepted {
            self.pending_size = self.pending_size + transaction.encoded_size;
        } else {
            self.unqueue_invalid.push(transaction.hash);
        }
    }

    /// The bytes pushed so far.
    pub fn pending_size(&self) -> (size: usize)
        ensures
            size == self@.pending_size,
    {
        self.pending_size
    }

    /// Ends the selection and hands back the hashes of the transactions to
    /// remove from the pool, in the order in which they were met.
    pub fn finish(self) -> (unqueue_invalid: Vec<primitives::Hash>)
        ensures
            unqueue_invalid@ == self@.unqueue_invalid,
    {
        self.unqueue_invalid
    }
}

/// A fault of a validator in the voting layer above the proposer. Each
/// holds the round, then what was signed: a block hash and the signature.
#[derive(Clone, Copy, Debug)]
pub enum BftMisbehavior {
    /// A proposal by a validator whose turn it was not.
    ProposeOutOfTurn(usize, primitives::Hash, Signature),
    /// Two proposals in one round.
    DoublePropose(usize, (primitives::Hash, Signature), (primitives::Hash, Signature)),
    /// Two votes to prepare in one round.
    DoublePrepare(usize, (primitives::Hash, Signature), (primitives::Hash, Signature)),
    /// Two votes to commit in one round.
    DoubleCommit(usize, (primitives::Hash, Signature), (primitives::Hash, Signature)),
}

/// A fault as it is reported on chain.
#[derive(Clone, Copy, Debug)]
pub enum MisbehaviorKind {
    /// Two votes to prepare in one round.
    BftDoublePrepare(u32, (primitives::Hash, Signature), (primitives::Hash, Signature)),
    /// Two votes to commit in one round.
    BftDoubleCommit(u32, (primitives::Hash, Signature), (primitives::Hash, Signature)),
}

/// A report of a fault, to be put on chain.
#[derive(Clone, Copy, Debug)]
pub struct MisbehaviorReport {
    /// The hash of the parent block of the slot.
    pub parent_hash: primitives::Hash,
    /// The number of the parent block of the slot.
    pub parent_number: BlockNumber,
    /// The validator at fault.
    pub target: AuthorityId,
    /// The fault.
    pub misbehavior: MisbehaviorKind,
}

/// The extrinsic that carries a report, before it is signed.
#[derive(Clone, Copy, Debug)]
pub struct ReportExtrinsic {
    /// The validator that reports.
    pub signed: AuthorityId,
    /// The index of the extrinsic among those of the reporter.
    pub index: u64,
    /// The report.
    pub report: MisbehaviorReport,
}

/// The round as a report holds it: its low 32 bits.
pub open spec fn report_round(round: usize) -> u32 {
    (round as nat % 0x1_0000_0000) as u32
}

/// The fault as it is reported, if it is reported at all. Faults in
/// proposing are not reported.
pub open spec fn reported_kind(misbehavior: BftMisbehavior) -> Option<MisbehaviorKind> {
    match misbehavior {
        BftMisbehavior::ProposeOutOfTurn(_, _, _) => None,
        BftMisbehavior::DoublePropose(_, _, _) => None,
        BftMisbehavior::DoublePrepare(round, first, second) => Some(
            MisbehaviorKind::BftDoublePrepare(report_round(round), first, second),
        ),
        BftMisbehavior::DoubleCommit(round, first, second) => Some(
            MisbehaviorKind::BftDoubleCommit(report_round(round), first, second),
        ),
    }
}

/// The index that the first report of the local validator gets: one more
/// than the index of its last transaction in the pool or, if it has none
/// there, than its index on chain. There is none if the chain could not be
/// asked, or if the indices are used up.
pub open spec fn next_index_spec(last_pending: Option<u64>, on_chain: Option<u64>) -> Option<u64> {
    let current = match last_pending {
        Some(index) => Some(index),
        None => on_chain,
    };
    match current {
        Some(index) if index < u64::MAX => Some((index + 1) as u64),
        _ => None,
    }
}

/// Computes the index that the first report of the local validator gets.
pub fn next_index(last_pending: Option<u64>, on_chain: Option<u64>) -> (next: Option<u64>)
    ensures
        next == next_index_spec(last_pending, on_chain),
{
    let current = match last_pending {
        Some(index) => Some(index),
        None => on_chain,
    };
    match current {
        Some(index) => index.checked_add(1),
        None => None,
    }
}

/// The extrinsics that report the given faults, in order, with consecutive
/// indices from `first_index` on.
pub open spec fn reports_for(
    local_id: AuthorityId,
    parent_hash: primitives::Hash,
    parent_number: BlockNumber,
    first_index: nat,
    misbehavior: Seq<(AuthorityId, BftMisbehavior)>,
) -> Seq<ReportExtrinsic>
    decreases misbehavior.len(),
{
    if misbehavior.len() == 0 {
        Seq::empty()
    } else {
        let before = reports_for(
            local_id,
            parent_hash,
            parent_number,
            first_index,
            misbehavior.drop_last(),
        );
        match reported_kind(misbehavior.last().1) {
            None => before,
            Some(kind) => before.push(
                ReportExtrinsic {
                    signed: local_id,
                    index: (first_index + before.len()) as u64,
                    report: MisbehaviorReport {
                        parent_hash: parent_hash,
                        parent_number: parent_number,
                        target: misbehavior.last().0,
                        misbehavior: kind,
                    },
                },
            ),
        }
    }
}

/// How many of the given faults are reported.
pub open spec fn reported_count(misbehavior: Seq<(AuthorityId, BftMisbehavior)>) -> nat
    decreases misbehavior.len(),
{
    if misbehavior.len() == 0 {
        0
    } else {
        reported_count(misbehavior.drop_last()) + if reported_kind(misbehavior.last().1).is_some() {
            1nat
        } else {
            0nat
        }
    }
}

/// There is one report for each fault that is reported, and the faults up
/// to some position give no more reports than all of them.
pub proof fn lemma_reported_count(
    local_id: AuthorityId,
    parent_hash: primitives::Hash,
    parent_number: BlockNumber,
    first_index: nat,
    misbehavior: Seq<(AuthorityId, BftMisbehavior)>,
    upto: int,
)
    requires
        0 <= upto <= misbehavior.len(),
    ensures
        reports_for(local_id, parent_hash, parent_number, first_index, misbehavior).len()
            == reported_count(misbehavior),
        reported_count(misbehavior.take(upto)) <= reported_count(misbehavior),
        reported_count(misbehavior) <= misbehavior.len(),
    decreases misbehavior.len(),
{
    if misbehavior.len() > 0 {
        let init = misbehavior.drop_last();
        if upto == misbehavior.len() {
            assert(misbehavior.take(upto) =~= misbehavior);
            lemma_reported_count(local_id, parent_hash, parent_number, first_index, init, 0);
        } else {
            lemma_reported_count(local_id, parent_hash, parent_number, first_index, init, upto);
            assert(init.take(upto) =~= misbehavior.take(upto));
        }
    } else {
        assert(misbehavior.take(upto) =~= misbehavior);
    }
}

/// Counts the faults that are reported.
pub fn reported_entries(misbehavior: &Vec<(AuthorityId, BftMisbehavior)>) -> (count: usize)
    ensures
        count == reported_count(misbehavior@),
{
    let mut count: usize = 0;
    let mut i: usize = 0;
    assert(misbehavior@.take(0) =~= Seq::<(AuthorityId, BftMisbehavior)>::empty());
    while i < misbehavior.len()
        invariant
            i <= misbehavior.len(),
            count == reported_count(misbehavior@.take(i as int)),
            count <= i,
        decreases misbehavior.len() - i,
    {
        assert(misbehavior@.take(i + 1).drop_last() =~= misbehavior@.take(i as int));
        assert(misbehavior@.take(i + 1).last() == misbehavior@[i as int]);
        match misbehavior[i].1 {
            BftMisbehavior::DoublePrepare(_, _, _) => {
                count += 1;
            },
            BftMisbehavior::DoubleCommit(_, _, _) => {
                count += 1;
            },
            _ => {},
        }
        i += 1;
    }
    assert(misbehavior@.take(misbehavior.len() as int) =~= misbehavior@);
    count
}

/// The index of the last of the given pending transactions that the local
/// validator signed, if it signed any. Each transaction is given by its
/// signer and its index, in the order of the pool.
pub fn last_pending_index(pending: &Vec<(AuthorityId, u64)>, local_id: &AuthorityId) -> (last: Option<
    u64,
>)
    ensures
        match last {
            Some(index) => exists|i: int|
                0 <= i < pending@.len() && #[trigger] pending@[i] == (*local_id, index) && forall|
                    j: int,
                |
                    i < j < pending@.len() ==> (#[trigger] pending@[j]).0 != *local_id,
            None => forall|i: int| 0 <= i < pending@.len() ==> (#[trigger] pending@[i]).0 != *local_id,
        },
{
    let mut i: usize = pending.len();
    while i > 0
        invariant
            i <= pending.len(),
            forall|j: int| i <= j < pending@.len() ==> (#[trigger] pending@[j]).0 != *local_id,
        decreases i,
    {
        i -= 1;
        if pending[i].0 == *local_id {
            assert(pending@[i as int] == (*local_id, pending@[i as int].1));
            return Some(pending[i].1);
        }
    }
    None
}

/// Turns faults of the voting layer into the extrinsics that report them.
/// The indices must not run out: there must be one for each fault that is
/// reported.
pub fn misbehavior_reports(
    local_id: AuthorityId,
    parent_hash: primitives::Hash,
    parent_number: BlockNumber,
    first_index: u64,
    misbehavior: &Vec<(AuthorityId, BftMisbehavior)>,
) -> (reports: Vec<ReportExtrinsic>)
    requires
        first_index + reported_count(misbehavior@) <= u64::MAX,
    ensures
        reports@ == reports_for(
            local_id,
            parent_hash,
            parent_number,
            first_index as nat,
            misbehavior@,
        ),
{
    let mut reports: Vec<ReportExtrinsic> = Vec::new();
    let mut next_index: u64 = first_index;
    let mut i: usize = 0;
    assert(misbehavior@.take(0) =~= Seq::<(AuthorityId, BftMisbehavior)>::empty());
    while i < misbehavior.len()
        invariant
            i <= misbehavior.len(),
            first_index + reported_count(misbehavior@) <= u64::MAX,
            reports@ == reports_for(
                local_id,
                parent_hash,
                parent_number,
                first_index as nat,
                misbehavior@.take(i as int),
            ),
            reports@.len() <= i,
            next_index == first_index + reports@.len(),
        decreases misbehavior.len() - i,
    {
        let target = misbehavior[i].0;
        assert(misbehavior@.take(i + 1).drop_last() =~= misbehavior@.take(i as int));
        assert(misbehavior@.take(i + 1).last() == misbehavior@[i as int]);
        proof {
            lemma_reported_count(
                local_id,
                parent_hash,
                parent_number,
                first_index as nat,
                misbehavior@,
                i + 1,
            );
            lemma_reported_count(
                local_id,
                parent_hash,
                parent_number,
                first_index as nat,
                misbehavior@.take(i + 1),
                0,
            );
        }
        let kind = match misbehavior[i].1 {
            BftMisbehavior::ProposeOutOfTurn(_, _, _) => None,
            BftMisbehavior::DoublePropose(_, _, _) => None,
            BftMisbehavior::DoublePrepare(round, first, second) => Some(
                MisbehaviorKind::BftDoublePrepare(low_bits(round), first, second),
            ),
            BftMisbehavior::DoubleCommit(round, first, second) => Some(
                MisbehaviorKind::BftDoubleCommit(low_bits(round), first, second),
            ),
        };
        match kind {
            Some(kind) => {
                reports.push(
                    ReportExtrinsic {
                        signed: local_id,
                        index: next_index,
                        report: MisbehaviorReport {
                            parent_hash: parent_hash,
                            parent_number: parent_number,
                            target: target,
                            misbehavior: kind,
                        },
                    },
                );
                next_index = next_index + 1;
            },
            None => {},
        }
        i += 1;
    }
    assert(misbehavior@.take(misbehavior.len() as int) =~= misbehavior@);
    reports
}

/// The low 32 bits of a round.
fn low_bits(round: usize) -> (low: u32)
    ensures
        low == report_round(round),
{
    ((round as u64) % 0x1_0000_0000) as u32
}

/// How many parachains the candidates with the given digests belong to. The
/// digests are taken to be in the order of their parachains, so that the
/// candidates of one parachain stand together.
pub open spec fn count_groups(table: TableView, digests: Seq<primitives::Hash>) -> nat
    decreases digests.len(),
{
    if digests.len() == 0 {
        0
    } else if digests.len() == 1 {
        1
    } else {
        let before = count_groups(table, digests.drop_last());
        if table.candidates[digests.last()].group_id == table.candidates[digests[digests.len()
            - 2]].group_id {
            before
        } else {
            before + 1
        }
    }
}

/// What to do in a step of making a proposal.
#[derive(Clone, Copy, Debug, PartialEq, Eq, Structural)]
pub enum ProposalStep {
    /// It is too early to bake: wait.
    Pending,
    /// Bake the block now.
    Bake,
}

/// Takes the collation of the local validator's parachain: states that
/// the candidate is valid, and hands back the digest under which the caller
/// publishes the data.
pub fn note_collation(table: &mut SharedTable, collation: &Collation) -> (digest: primitives::Hash)
    ensures
        digest == crate::codec::candidate_digest(collation.receipt@),
        final(table)@ == old(table)@.import_local(
            old(table).context().signed(StatementView::Valid(digest)),
        ),
        final(table).context() == old(table).context(),
{
    let digest = collation.receipt.hash();
    table.sign_and_import(Statement::Valid(digest));
    digest
}

/// The number of parachains that have a candidate to include.
pub fn included_parachains(shared: &SharedTable) -> (included: usize)
    ensures
        exists|digests: Seq<primitives::Hash>|
            #[trigger] shared@.table.is_proposal_order(shared@.context, digests) && included
                == count_groups(shared@.table, digests),
{
    let context = shared.table_context();
    let table = shared.table();
    let digests = table.proposed_digests(context);
    let mut included: usize = 0;
    let mut i: usize = 0;
    assert(digests@.take(0) =~= Seq::<primitives::Hash>::empty());
    while i < digests.len()
        invariant
            i <= digests.len(),
            table@ == shared@.table,
            context@ == shared@.context,
            table@.is_proposal_order(context@, digests@),
            included == count_groups(table@, digests@.take(i as int)),
            included <= i,
        decreases digests.len() - i,
    {
        proof {
            assert(digests@.take(i + 1).drop_last() =~= digests@.take(i as int));
            assert(digests@.take(i + 1).last() == digests@[i as int]);
            if i > 0 {
                assert(digests@.take(i + 1)[i - 1] == digests@[i - 1]);
            }
            assert(table@.includable(context@, digests@[i as int]));
            if i > 0 {
                assert(table@.includable(context@, digests@[i - 1]));
            }
        }
        let group = match table.get_candidate_data(&digests[i]) {
            Some(record) => record.group_id,
            None => {
                return 0;
            },
        };
        if i == 0 {
            included = 1;
        } else {
            let previous = match table.get_candidate_data(&digests[i - 1]) {
                Some(record) => record.group_id,
                None => {
                    return 0;
                },
            };
            if previous.0 != group.0 {
                included += 1;
            }
        }
        i += 1;
    }
    assert(digests@.take(digests.len() as int) =~= digests@);
    included
}

/// Says whether to bake at time `now`, in milliseconds: not before the time
/// that the timer allows for the parachains that have a candidate.
pub fn proposal_step(shared: &SharedTable, timer: &DynamicInclusion, now: u64) -> (step: ProposalStep)
    ensures
        exists|digests: Seq<primitives::Hash>|
            #[trigger] shared@.table.is_proposal_order(shared@.context, digests) && step == (
            if now >= timer.earliest_bake_spec(count_groups(shared@.table, digests)) {
                ProposalStep::Bake
            } else {
                ProposalStep::Pending
            }),
{
    let included = included_parachains(shared);
    if timer.acceptable_at(now, included) {
        ProposalStep::Bake
    } else {
        ProposalStep::Pending
    }
}

/// The proposer of one slot.
pub struct Proposer {
    /// The hash of the parent block.
    pub parent_hash: primitives::Hash,
    /// The number of the parent block.
    pub parent_number: BlockNumber,
    /// The key of the local validator.
    pub local_key: Pair,
    /// Decides from when on a block may be baked.
    pub dynamic_inclusion: DynamicInclusion,
    /// The statement table of the slot.
    pub table: SharedTable,
}

impl Proposer {
    /// Sets up the proposer of the slot that builds on the given parent:
    /// derives the groups from the duty roster, makes the statement table
    /// and starts the timer at `now`, in milliseconds.
    pub fn init(
        parent_hash: primitives::Hash,
        parent_number: BlockNumber,
        duty_roster: DutyRoster,
        authorities: &[AuthorityId],
        sign_with: Pair,
        now: u64,
        parachain_empty_duration: u64,
    ) -> (result: Result<Proposer, Error>)
        ensures
            match result {
                Ok(proposer) => {
                    &&& duty_roster.validator_duty@.len() == authorities@.len()
                    &&& duty_roster.guarantor_duty@.len() == authorities@.len()
                    &&& proposer.parent_hash == parent_hash
                    &&& proposer.parent_number == parent_number
                    &&& proposer.local_key == sign_with
                    &&& proposer.table@.table == TableView::empty()
                    &&& proposer.table@.context.parent_hash == parent_hash
                    &&& proposer.table@.context.local_id == sign_with.public_id()
                    &&& proposer.table@.context.groups == crate::group_info::group_info_spec(
                        duty_roster.validator_duty@,
                        duty_roster.guarantor_duty@,
                        authorities@,
                    )
                    &&& proposer.table@.proposed_digest.is_none()
                    &&& proposer.dynamic_inclusion.n_parachains
                        == proposer.table@.context.groups.dom().len()
                    &&& proposer.dynamic_inclusion.start == now
                    &&& proposer.dynamic_inclusion.parachain_empty_duration
                        == parachain_empty_duration
                },
                Err(error) => if duty_roster.validator_duty@.len() != authorities@.len() {
                    error == Error::InvalidDutyRosterLength(
                        authorities@.len() as usize,
                        duty_roster.validator_duty@.len() as usize,
                    )
                } else {
                    &&& duty_roster.guarantor_duty@.len() != authorities@.len()
                    &&& error == Error::InvalidDutyRosterLength(
                        authorities@.len() as usize,
                        duty_roster.guarantor_duty@.len() as usize,
                    )
                },
            },
    {
        let group_info = match make_group_info(duty_roster, authorities) {
            Ok(group_info) => group_info,
            Err(error) => {
                return Err(error);
            },
        };
        let n_parachains = group_info.len();
        assert(crate::group_info::groups_view(group_info@).dom() =~= group_info@.dom());
        let table = SharedTable::new(group_info, sign_with, parent_hash);
        let dynamic_inclusion = DynamicInclusion::new(n_parachains, now, parachain_empty_duration);
        Ok(
            Proposer {
                parent_hash: parent_hash,
                parent_number: parent_number,
                local_key: sign_with,
                dynamic_inclusion: dynamic_inclusion,
                table: table,
            },
        )
    }

    /// Runs the checks on a proposal that need no chain state, against the
    /// parent of this slot.
    pub fn evaluate(&self, proposal: Option<&Proposal>, now: Timestamp) -> (result: Result<(), Error>)
        ensures
            result == (match proposal {
                Some(proposal) => check_proposal(
                    true,
                    proposal.parent_hash,
                    proposal.timestamp,
                    proposal.extrinsic_sizes@,
                    now,
                    self.parent_hash,
                ),
                None => Err(Error::ProposalNotForPolkadot),
            }),
    {
        evaluate_proposal(proposal, now, &self.parent_hash)
    }

    /// Turns faults of the voting layer into the extrinsics that report
    /// them, signed for by the local validator, with consecutive indices
    /// from `first_index` on.
    pub fn import_misbehavior(&self, first_index: u64, misbehavior: &Vec<(AuthorityId, BftMisbehavior)>) -> (reports:
        Vec<ReportExtrinsic>)
        requires
            first_index + reported_count(misbehavior@) <= u64::MAX,
        ensures
            reports@ == reports_for(
                self.local_key.public_id(),
                self.parent_hash,
                self.parent_number,
                first_index as nat,
                misbehavior@,
            ),
    {
        misbehavior_reports(
            self.local_key.public(),
            self.parent_hash,
            self.parent_number,
            first_index,
            misbehavior,
        )
    }

    /// Takes the collation of the local validator's parachain: states that
    /// the candidate is valid, and hands back the digest under which the
    /// caller publishes the data.
    pub fn note_collation(&mut self, collation: &Collation) -> (digest: primitives::Hash)
        ensures
            digest == crate::codec::candidate_digest(collation.receipt@),
            final(self).table@ == old(self).table@.import_local(
                old(self).table.context().signed(StatementView::Valid(digest)),
            ),
            final(self).table.context() == old(self).table.context(),
            final(self).parent_hash == old(self).parent_hash,
            final(self).parent_number == old(self).parent_number,
            final(self).local_key == old(self).local_key,
            final(self).dynamic_inclusion == old(self).dynamic_inclusion,
    {
        note_collation(&mut self.table, collation)
    }

    /// The number of parachains that have a candidate to include.
    pub fn included_parachains(&self) -> (included: usize)
        ensures
            exists|digests: Seq<primitives::Hash>|
                #[trigger] self.table@.table.is_proposal_order(self.table@.context, digests)
                    && included == count_groups(self.table@.table, digests),
    {
        included_parachains(&self.table)
    }

    /// Says whether to bake at time `now`, in milliseconds.
    pub fn step(&self, now: u64) -> (step: ProposalStep)
        ensures
            exists|digests: Seq<primitives::Hash>|
                #[trigger] self.table@.table.is_proposal_order(self.table@.context, digests) && step
                    == (if now >= self.dynamic_inclusion.earliest_bake_spec(
                    count_groups(self.table@.table, digests),
                ) {
                    ProposalStep::Bake
                } else {
                    ProposalStep::Pending
                }),
    {
        proposal_step(&self.table, &self.dynamic_inclusion, now)
    }
}

/// What to do after a step of making a proposal.
#[derive(Clone, Copy, Debug)]
pub struct ProposalAction {
    /// The digest under which to publish the data of the local collation,
    /// if the collation arrived in this step.
    pub publish: Option<primitives::Hash>,
    /// Whether to bake now.
    pub step: ProposalStep,
}

/// The making of one proposal: first the local collation is taken in, then
/// the block is baked as soon as the timer allows.
#[derive(Debug)]
pub struct CreateProposal {
    collated: bool,
}

impl CreateProposal {
    /// Whether the local collation was taken in.
    pub closed spec fn collated(&self) -> bool {
        self.collated
    }

    /// Starts the making of a proposal.
    pub fn new() -> (proposal: CreateProposal)
        ensures
            !proposal.collated(),
    {
        CreateProposal { collated: false }
    }

    /// Tells whether the local collation is still to be polled.
    pub fn wants_collation(&self) -> (wanted: bool)
        ensures
            wanted == !self.collated(),
    {
        !self.collated
    }

    /// One step of making the proposal. `collation` is the local collation
    /// if it arrived in this step; it is taken once. Then the timer decides
    /// whether to bake at time `now`, in milliseconds.
    pub fn poll(
        &mut self,
        table: &mut SharedTable,
        timer: &DynamicInclusion,
        collation: Option<&Collation>,
        now: u64,
    ) -> (action: ProposalAction)
        ensures
            final(self).collated() == (old(self).collated() || collation.is_some()),
            action.publish == (match collation {
                Some(collation) if !old(self).collated() => Some(
                    crate::codec::candidate_digest(collation.receipt@),
                ),
                _ => None,
            }),
            final(table)@ == (match action.publish {
                Some(digest) => old(table)@.import_local(
                    old(table).context().signed(StatementView::Valid(digest)),
                ),
                None => old(table)@,
            }),
            final(table).context() == old(table).context(),
            exists|digests: Seq<primitives::Hash>|
                #[trigger] final(table)@.table.is_proposal_order(final(table)@.context, digests)
                    && action.step == (if now >= timer.earliest_bake_spec(
                    count_groups(final(table)@.table, digests),
                ) {
                    ProposalStep::Bake
                } else {
                    ProposalStep::Pending
                }),
    {
        let publish = match collation {
            Some(collation) => {
                if self.collated {
                    None
                } else {
                    self.collated = true;
                    Some(note_collation(table, collation))
                }
            },
            None => None,
        };
        let step = proposal_step(table, timer, now);
        ProposalAction { publish: publish, step: step }
    }

    /// Starts the choice of transactions for the block to bake.
    pub fn propose(&self) -> (selection: TransactionSelection)
        ensures
            selection@.pending_size == 0,
            selection@.unqueue_invalid == Seq::<primitives::Hash>::empty(),
    {
        TransactionSelection::new()
    }
}

impl Proposer {
    /// Starts the making of a proposal.
    pub fn propose(&self) -> (proposal: CreateProposal)
        ensures
            !proposal.collated(),
    {
        CreateProposal::new()
    }
}

} // verus!
