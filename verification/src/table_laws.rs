//! What holds of every statement table, whatever is imported into it.

use vstd::prelude::*;
use crate::candidate::CandidateView;
use crate::context::ContextView;
use crate::primitives::{self, AuthorityId, CandidateReceiptView};
use crate::statement::{SignedStatementView, StatementView};
use crate::table::{first_proposal, pending_has, same_vote, Seat, TableView};

verus! {

/// Whether `after` holds everything that `before` holds about faults,
/// proposals and votes cast: nothing on record is dropped or changed.
pub open spec fn keeps_record(before: TableView, after: TableView) -> bool {
    &&& forall|author: AuthorityId| #[trigger]
        before.misbehavior.contains_key(author) ==> after.misbehavior.contains_key(author)
            && after.misbehavior[author] == before.misbehavior[author]
    &&& forall|seat: Seat| #[trigger]
        before.proposals.contains_key(seat) ==> after.proposals.contains_key(seat)
            && after.proposals[seat] == before.proposals[seat]
    &&& forall|digest: primitives::Hash| #[trigger]
        before.candidates.contains_key(digest) ==> after.candidates.contains_key(digest)
            && keeps_votes(before.candidates[digest], after.candidates[digest])
}

/// Whether `after` is the record `before` with, at most, more votes.
pub open spec fn keeps_votes(before: CandidateView, after: CandidateView) -> bool {
    &&& after.group_id == before.group_id
    &&& after.receipt == before.receipt
    &&& after.proposer == before.proposer
    &&& forall|voter: AuthorityId| #[trigger]
        before.validity_votes.contains_key(voter) ==> after.validity_votes.contains_key(voter)
            && after.validity_votes[voter] == before.validity_votes[voter]
    &&& forall|voter: AuthorityId| #[trigger]
        before.availability_votes.contains_key(voter) ==> after.availability_votes.contains_key(
            voter,
        ) && after.availability_votes[voter] == before.availability_votes[voter]
}

/// Keeping the record carries over from step to step.
pub proof fn lemma_keeps_record_transitive(first: TableView, second: TableView, third: TableView)
    requires
        keeps_record(first, second),
        keeps_record(second, third),
    ensures
        keeps_record(first, third),
{
    assert forall|digest: primitives::Hash| #[trigger]
        first.candidates.contains_key(digest) implies third.candidates.contains_key(digest)
        && keeps_votes(first.candidates[digest], third.candidates[digest]) by {
        assert(second.candidates.contains_key(digest));
        assert(keeps_votes(first.candidates[digest], second.candidates[digest]));
        assert(keeps_votes(second.candidates[digest], third.candidates[digest]));
    }
}

/// Importing a vote on a known candidate drops nothing from the record and
/// leaves the proposals alone.
pub proof fn lemma_vote_keeps_record(table: TableView, context: ContextView, statement: SignedStatementView)
    ensures
        keeps_record(table, table.import_vote(context, statement).0),
        table.import_vote(context, statement).0.proposals == table.proposals,
        table.import_vote(context, statement).0.pending == table.pending,
{
}

/// Replaying pending votes drops nothing from the record and leaves the
/// proposals alone.
pub proof fn lemma_replay_keeps_record(
    table: TableView,
    context: ContextView,
    queue: Seq<SignedStatementView>,
    digest: primitives::Hash,
)
    ensures
        keeps_record(table, table.replay(context, queue, digest)),
        table.replay(context, queue, digest).proposals == table.proposals,
    decreases queue.len(),
{
    if queue.len() > 0 {
        let next = if queue[0].statement.digest() == digest {
            table.import_vote(context, queue[0]).0
        } else {
            TableView { pending: table.pending.push(queue[0]), ..table }
        };
        lemma_vote_keeps_record(table, context, queue[0]);
        lemma_replay_keeps_record(next, context, queue.drop_first(), digest);
        lemma_keeps_record_transitive(table, next, next.replay(context, queue.drop_first(), digest));
    }
}

/// Importing a proposal drops nothing from the record.
pub proof fn lemma_candidate_keeps_record(
    table: TableView,
    context: ContextView,
    statement: SignedStatementView,
    receipt: CandidateReceiptView,
    digest: primitives::Hash,
)
    ensures
        keeps_record(table, table.import_candidate(context, statement, receipt, digest).0),
{
    let group = receipt.parachain_index;
    let seat = Seat { authority: statement.sender, group: group };
    if context.is_member_of(statement.sender, group) && !(table.proposals.contains_key(seat)
        && table.proposals[seat].0 != digest) {
        if table.candidates.contains_key(digest) {
            let outcome = table.cast_validity(
                context,
                statement,
                digest,
                crate::candidate::ValidityVote::Implicit(statement.signature),
            );
            if outcome.1.is_some() {
                assert(table.candidates[digest].validity_votes.contains_key(statement.sender)
                    == false);
            }
        } else {
            let after = table.import_candidate(context, statement, receipt, digest).0;
            let started = TableView {
                candidates: table.candidates.insert(
                    digest,
                    CandidateView {
                        group_id: group,
                        receipt: receipt,
                        proposer: statement.sender,
                        validity_votes: Map::<
                            AuthorityId,
                            crate::candidate::ValidityVote,
                        >::empty().insert(
                            statement.sender,
                            crate::candidate::ValidityVote::Implicit(statement.signature),
                        ),
                        availability_votes: Map::empty(),
                    },
                ),
                proposals: first_proposal(table.proposals, seat, (digest, statement.signature)),
                unsent_candidates: table.unsent_candidates.push(statement),
                pending: Seq::empty(),
                ..table
            };
            lemma_replay_keeps_record(started, context, table.pending, digest);
            assert(after == started.replay(context, table.pending, digest));
            assert(keeps_record(table, started));
            lemma_keeps_record_transitive(table, started, after);
        }
    }
}

/// Once a fault of a validator is on record, no import changes or removes
/// it: the table holds one fault per validator, the first that it found.
pub proof fn lemma_first_misbehavior_stays(
    table: TableView,
    context: ContextView,
    statement: SignedStatementView,
    digest: primitives::Hash,
    signature_ok: bool,
    author: AuthorityId,
)
    requires
        table.misbehavior.contains_key(author),
    ensures
        table.import_resolved(context, statement, digest, signature_ok).0.misbehavior.contains_key(
            author,
        ),
        table.import_resolved(context, statement, digest, signature_ok).0.misbehavior[author]
            == table.misbehavior[author],
{
    lemma_import_keeps_record(table, context, statement, digest, signature_ok);
}

/// No import drops or changes a fault, a proposal or a vote on record.
pub proof fn lemma_import_keeps_record(
    table: TableView,
    context: ContextView,
    statement: SignedStatementView,
    digest: primitives::Hash,
    signature_ok: bool,
)
    ensures
        keeps_record(table, table.import_resolved(context, statement, digest, signature_ok).0),
{
    if signature_ok {
        match statement.statement {
            StatementView::Candidate(receipt) => {
                lemma_candidate_keeps_record(table, context, statement, receipt, digest);
            },
            _ => {
                lemma_vote_keeps_record(table, context, statement);
            },
        }
    }
}

/// Whether the two queues of statements that await a batch hold what they
/// are for: proposals in the one, votes in the other.
pub open spec fn queues_by_kind(table: TableView) -> bool {
    &&& forall|i: int|
        0 <= i < table.unsent_candidates.len() ==> (
        #[trigger] table.unsent_candidates[i]).statement is Candidate
    &&& forall|i: int|
        0 <= i < table.unsent_votes.len() ==> !((
        #[trigger] table.unsent_votes[i]).statement is Candidate)
}

/// Whether every proposal in `batch` stands before every vote.
pub open spec fn proposals_first(batch: Seq<SignedStatementView>) -> bool {
    forall|i: int, j: int|
        0 <= i < j < batch.len() && (#[trigger] batch[j]).statement is Candidate ==> (
        #[trigger] batch[i]).statement is Candidate
}

/// The empty table has its queues in order.
pub proof fn lemma_empty_queues_by_kind()
    ensures
        queues_by_kind(TableView::empty()),
{
}

/// Importing a vote on a known candidate keeps the queues in order.
pub proof fn lemma_vote_keeps_queues(table: TableView, context: ContextView, statement: SignedStatementView)
    requires
        queues_by_kind(table),
    ensures
        queues_by_kind(table.import_vote(context, statement).0),
{
}

/// Replaying pending votes keeps the queues in order.
pub proof fn lemma_replay_keeps_queues(
    table: TableView,
    context: ContextView,
    queue: Seq<SignedStatementView>,
    digest: primitives::Hash,
)
    requires
        queues_by_kind(table),
    ensures
        queues_by_kind(table.replay(context, queue, digest)),
    decreases queue.len(),
{
    if queue.len() > 0 {
        let next = if queue[0].statement.digest() == digest {
            table.import_vote(context, queue[0]).0
        } else {
            TableView { pending: table.pending.push(queue[0]), ..table }
        };
        lemma_vote_keeps_queues(table, context, queue[0]);
        lemma_replay_keeps_queues(next, context, queue.drop_first(), digest);
    }
}

/// Every import keeps the queues in order: what awaits a batch as a
/// proposal is a proposal, and what awaits one as a vote is a vote.
pub proof fn lemma_import_keeps_queues(
    table: TableView,
    context: ContextView,
    statement: SignedStatementView,
    digest: primitives::Hash,
    signature_ok: bool,
)
    requires
        queues_by_kind(table),
    ensures
        queues_by_kind(table.import_resolved(context, statement, digest, signature_ok).0),
{
    if signature_ok {
        match statement.statement {
            StatementView::Candidate(receipt) => {
                let group = receipt.parachain_index;
                let seat = Seat { authority: statement.sender, group: group };
                if context.is_member_of(statement.sender, group) && !(table.proposals.contains_key(
                    seat,
                ) && table.proposals[seat].0 != digest) && !table.candidates.contains_key(digest) {
                    let started = TableView {
                        candidates: table.candidates.insert(
                            digest,
                            CandidateView {
                                group_id: group,
                                receipt: receipt,
                                proposer: statement.sender,
                                validity_votes: Map::<
                                    AuthorityId,
                                    crate::candidate::ValidityVote,
                                >::empty().insert(
                                    statement.sender,
                                    crate::candidate::ValidityVote::Implicit(statement.signature),
                                ),
                                availability_votes: Map::empty(),
                            },
                        ),
                        proposals: first_proposal(
                            table.proposals,
                            seat,
                            (digest, statement.signature),
                        ),
                        unsent_candidates: table.unsent_candidates.push(statement),
                        pending: Seq::empty(),
                        ..table
                    };
                    assert(queues_by_kind(started));
                    lemma_replay_keeps_queues(started, context, table.pending, digest);
                }
            },
            _ => {
                lemma_vote_keeps_queues(table, context, statement);
            },
        }
    }
}

/// Filling a batch keeps the queues in order, and the batch holds its
/// proposals before its votes.
pub proof fn lemma_batch_proposals_first(table: TableView, budget: nat)
    requires
        queues_by_kind(table),
    ensures
        queues_by_kind(table.after_batch(budget)),
        proposals_first(table.batch_for(budget)),
{
    crate::batch::lemma_fitting_bounds(table.unsent_candidates, budget);
    let left = (budget - crate::batch::total_size(table.unsent_candidates)) as nat;
    crate::batch::lemma_fitting_bounds(table.unsent_votes, left);
    let taken = table.fitting_candidates(budget) as int;
    let voted = table.fitting_votes(budget) as int;
    let batch = table.batch_for(budget);
    assert forall|i: int, j: int|
        0 <= i < j < batch.len() && (#[trigger] batch[j]).statement is Candidate implies (
    #[trigger] batch[i]).statement is Candidate by {
        if j >= taken {
            assert(batch[j] == table.unsent_votes[j - taken]);
        }
        assert(batch[i] == table.unsent_candidates[i]);
    }
}

/// Importing a statement a second time changes nothing and is answered
/// with no summary: the table takes each statement of each sender once.
pub proof fn lemma_import_idempotent(
    table: TableView,
    context: ContextView,
    statement: SignedStatementView,
    digest: primitives::Hash,
    signature_ok: bool,
)
    ensures
        ({
            let once = table.import_resolved(context, statement, digest, signature_ok).0;
            once.import_resolved(context, statement, digest, signature_ok) == (
                once,
                None::<crate::table::Summary>,
            )
        }),
{
    let once = table.import_resolved(context, statement, digest, signature_ok).0;
    let twice = once.import_resolved(context, statement, digest, signature_ok);
    if signature_ok {
        match statement.statement {
            StatementView::Candidate(receipt) => {
                lemma_candidate_idempotent(table, context, statement, receipt, digest);
            },
            _ => {
                let subject = statement.statement.digest();
                if table.candidates.contains_key(subject) {
                    lemma_vote_idempotent(table, context, statement);
                    lemma_vote_keeps_record(table, context, statement);
                } else if pending_has(table.pending, statement) {
                } else {
                    assert(once.pending[table.pending.len() as int] == statement);
                    assert(same_vote(statement.statement, statement.statement));
                    assert(pending_has(once.pending, statement));
                }
            },
        }
    }
}

/// Importing a vote on a known candidate a second time changes nothing.
pub proof fn lemma_vote_idempotent(table: TableView, context: ContextView, statement: SignedStatementView)
    requires
        table.candidates.contains_key(statement.statement.digest()),
    ensures
        ({
            let once = table.import_vote(context, statement).0;
            once.import_vote(context, statement) == (once, None::<crate::table::Summary>)
        }),
{
}

/// Importing a proposal a second time changes nothing.
pub proof fn lemma_candidate_idempotent(
    table: TableView,
    context: ContextView,
    statement: SignedStatementView,
    receipt: CandidateReceiptView,
    digest: primitives::Hash,
)
    ensures
        ({
            let once = table.import_candidate(context, statement, receipt, digest).0;
            once.import_candidate(context, statement, receipt, digest) == (
                once,
                None::<crate::table::Summary>,
            )
        }),
{
    let group = receipt.parachain_index;
    let seat = Seat { authority: statement.sender, group: group };
    let once = table.import_candidate(context, statement, receipt, digest).0;
    if context.is_member_of(statement.sender, group) && !(table.proposals.contains_key(seat)
        && table.proposals[seat].0 != digest) {
        if !table.candidates.contains_key(digest) {
            let started = TableView {
                candidates: table.candidates.insert(
                    digest,
                    CandidateView {
                        group_id: group,
                        receipt: receipt,
                        proposer: statement.sender,
                        validity_votes: Map::<
                            AuthorityId,
                            crate::candidate::ValidityVote,
                        >::empty().insert(
                            statement.sender,
                            crate::candidate::ValidityVote::Implicit(statement.signature),
                        ),
                        availability_votes: Map::empty(),
                    },
                ),
                proposals: first_proposal(table.proposals, seat, (digest, statement.signature)),
                unsent_candidates: table.unsent_candidates.push(statement),
                pending: Seq::empty(),
                ..table
            };
            lemma_replay_keeps_record(started, context, table.pending, digest);
            assert(once == started.replay(context, table.pending, digest));
            assert(started.candidates.contains_key(digest));
            assert(started.proposals.contains_key(seat));
            assert(started.candidates[digest].validity_votes.contains_key(statement.sender));
        }
    }
}

/// A known candidate may be included exactly when it has at least the
/// votes for validity that its group needs, no vote against it, and at
/// least the votes for availability that its group needs. A candidate that
/// is not known may not be included.
pub proof fn lemma_includable_iff_quorums(table: TableView, context: ContextView, digest: primitives::Hash)
    ensures
        table.includable(context, digest) <==> {
            &&& table.candidates.contains_key(digest)
            &&& table.candidates[digest].valid_count() >= context.requisite_votes(
                table.candidates[digest].group_id,
            ).0
            &&& table.candidates[digest].invalid_count() == 0
            &&& table.candidates[digest].available_count() >= context.requisite_votes(
                table.candidates[digest].group_id,
            ).1
        },
{
}

/// Whether `digests` is in strictly ascending order of parachain and
/// digest.
pub open spec fn ascending(table: TableView, digests: Seq<primitives::Hash>) -> bool {
    forall|i: int, j: int|
        0 <= i < j < digests.len() ==> table.comes_before(#[trigger] digests[i], #[trigger] digests[j])
}

/// Two ascending lists of the same digests are one list.
pub proof fn lemma_ascending_unique(
    table: TableView,
    first: Seq<primitives::Hash>,
    second: Seq<primitives::Hash>,
)
    requires
        ascending(table, first),
        ascending(table, second),
        forall|digest: primitives::Hash| first.contains(digest) <==> second.contains(digest),
    ensures
        first == second,
    decreases first.len(),
{
    if first.len() == 0 {
        if second.len() > 0 {
            assert(second.contains(second[0]));
            assert(first.contains(second[0]));
        }
        assert(first =~= second);
    } else {
        assert(first.contains(first[0]));
        assert(second.contains(first[0]));
        let j = choose|j: int| 0 <= j < second.len() && second[j] == first[0];
        assert(second.contains(second[0]));
        assert(first.contains(second[0]));
        let i = choose|i: int| 0 <= i < first.len() && first[i] == second[0];
        if j > 0 {
            assert(table.comes_before(second[0], second[j]));
            if i > 0 {
                assert(table.comes_before(first[0], first[i]));
            }
        }
        assert(first[0] == second[0]);
        let first_rest = first.drop_first();
        let second_rest = second.drop_first();
        assert forall|digest: primitives::Hash| first_rest.contains(digest) <==> second_rest.contains(
            digest,
        ) by {
            if first_rest.contains(digest) {
                let k = choose|k: int| 0 <= k < first_rest.len() && first_rest[k] == digest;
                assert(first[k + 1] == digest);
                assert(table.comes_before(first[0], first[k + 1]));
                assert(first.contains(digest));
                let l = choose|l: int| 0 <= l < second.len() && second[l] == digest;
                assert(l > 0);
                assert(second_rest[l - 1] == digest);
            }
            if second_rest.contains(digest) {
                let k = choose|k: int| 0 <= k < second_rest.len() && second_rest[k] == digest;
                assert(second[k + 1] == digest);
                assert(table.comes_before(second[0], second[k + 1]));
                assert(second.contains(digest));
                let l = choose|l: int| 0 <= l < first.len() && first[l] == digest;
                assert(l > 0);
                assert(first_rest[l - 1] == digest);
            }
        }
        assert(ascending(table, first_rest)) by {
            assert forall|a: int, b: int| 0 <= a < b < first_rest.len() implies table.comes_before(
                #[trigger] first_rest[a],
                #[trigger] first_rest[b],
            ) by {
                assert(table.comes_before(first[a + 1], first[b + 1]));
            }
        }
        assert(ascending(table, second_rest)) by {
            assert forall|a: int, b: int| 0 <= a < b < second_rest.len() implies table.comes_before(
                #[trigger] second_rest[a],
                #[trigger] second_rest[b],
            ) by {
                assert(table.comes_before(second[a + 1], second[b + 1]));
            }
        }
        lemma_ascending_unique(table, first_rest, second_rest);
        assert(first =~= seq![first[0]] + first_rest);
        assert(second =~= seq![second[0]] + second_rest);
    }
}

/// There is one list of the candidates that may be included, in order: what
/// the table proposes is determined by what it holds.
pub proof fn lemma_proposal_order_unique(
    table: TableView,
    context: ContextView,
    first: Seq<primitives::Hash>,
    second: Seq<primitives::Hash>,
)
    requires
        table.is_proposal_order(context, first),
        table.is_proposal_order(context, second),
    ensures
        first == second,
{
    assert forall|digest: primitives::Hash| first.contains(digest) <==> second.contains(digest) by {
        if first.contains(digest) {
            let k = choose|k: int| 0 <= k < first.len() && first[k] == digest;
            assert(table.includable(context, first[k]));
        }
        if second.contains(digest) {
            let k = choose|k: int| 0 <= k < second.len() && second[k] == digest;
            assert(table.includable(context, second[k]));
        }
    }
    lemma_ascending_unique(table, first, second);
}

} // verus!
