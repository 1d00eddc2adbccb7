//! The statement table as the local validator uses it.
//!
//! Besides the table, the local validator remembers which candidate it
//! proposed itself and for which candidates it has already set out to check
//! validity or availability, so that every check is started once.

use vstd::prelude::*;
use crate::batch::{statement_views, total_size, StatementBatch};
use crate::context::{ContextView, TableContext};
use crate::crypto::Pair;
use crate::group_info::Groups;
use crate::misbehavior::Misbehavior;
use crate::primitives::{self, AuthorityId, CandidateReceipt};
use crate::producer::{FetchState, ProducedView, ProducerView, StatementProducer};
use crate::statement::{signature_valid, SignedStatement, SignedStatementView, Statement, StatementView};
use crate::table::{misbehavior_views, Table, TableView};
use crate::vec_map::VecMap;

verus! {

/// Where a statement comes from.
#[derive(Clone, Copy, Debug)]
pub enum StatementSource {
    /// The local validator made the statement.
    Local,
    /// The statement was received, from the given peer if it is known.
    Remote(Option<AuthorityId>),
}

/// What a shared table holds.
pub struct SharedTableView {
    /// The facts of the slot.
    pub context: ContextView,
    /// The statement table.
    pub table: TableView,
    /// The digest of the candidate that the local validator proposed.
    pub proposed_digest: Option<primitives::Hash>,
    /// The digests for which a check of validity was started.
    pub checked_validity: Set<primitives::Hash>,
    /// The digests for which a check of availability was started.
    pub checked_availability: Set<primitives::Hash>,
}

impl SharedTableView {
    /// Imports a statement that is said to come from the local validator.
    /// The table takes it as it takes any statement; nothing else changes,
    /// and no check is started: the local validator trusts what it says
    /// itself.
    pub open spec fn import_local(self, statement: SignedStatementView) -> SharedTableView {
        SharedTableView { table: self.table.import(self.context, statement).0, ..self }
    }

    /// Takes in a statement that the local validator has just signed. A
    /// proposal makes its candidate the one that the local validator
    /// proposed; then the statement is imported as a local one.
    pub open spec fn sign_and_import(self, statement: SignedStatementView) -> SharedTableView {
        SharedTableView {
            proposed_digest: if statement.statement is Candidate {
                Some(statement.statement.digest())
            } else {
                self.proposed_digest
            },
            ..self.import_local(statement)
        }
    }

    /// Whether the local validator is to check the validity of the
    /// candidate with digest `digest` in `group` now: it guarantees
    /// validity there, did not propose the candidate itself, and has not
    /// started the check before.
    pub open spec fn starts_validity_check(
        self,
        digest: primitives::Hash,
        group: primitives::ParaId,
    ) -> bool {
        &&& self.context.is_member_of(self.context.local_id, group)
        &&& self.proposed_digest != Some(digest)
        &&& !self.checked_validity.contains(digest)
    }

    /// Whether the local validator is to check the availability of the
    /// candidate with digest `digest` in `group` now: it guarantees
    /// availability there and has not started the check before.
    pub open spec fn starts_availability_check(
        self,
        digest: primitives::Hash,
        group: primitives::ParaId,
    ) -> bool {
        &&& self.context.is_availability_guarantor_of(self.context.local_id, group)
        &&& !self.checked_availability.contains(digest)
    }

    /// Imports a statement that was received: the shared table afterwards,
    /// and the producer for the work that the statement causes.
    ///
    /// A statement that the table does not accept as new causes no work.
    /// Otherwise the producer is for the candidate of the statement, with a
    /// fetch of block data pending if the validity check starts now and a
    /// fetch of extrinsic data pending if the availability check starts now.
    pub open spec fn import_remote(self, statement: SignedStatementView) -> (
        SharedTableView,
        ProducerView,
    ) {
        let imported = self.table.import(self.context, statement);
        match imported.1 {
            None => (SharedTableView { table: imported.0, ..self }, ProducerView::inert()),
            Some(summary) => {
                let validity = self.starts_validity_check(summary.candidate, summary.group_id);
                let availability = self.starts_availability_check(
                    summary.candidate,
                    summary.group_id,
                );
                (
                    SharedTableView {
                        table: imported.0,
                        checked_validity: if validity {
                            self.checked_validity.insert(summary.candidate)
                        } else {
                            self.checked_validity
                        },
                        checked_availability: if availability {
                            self.checked_availability.insert(summary.candidate)
                        } else {
                            self.checked_availability
                        },
                        ..self
                    },
                    ProducerView {
                        candidate_digest: Some(summary.candidate),
                        candidate: if (validity || availability)
                            && imported.0.candidates.contains_key(summary.candidate) {
                            Some(imported.0.candidates[summary.candidate].receipt)
                        } else {
                            None
                        },
                        fetch_block_data: if validity && imported.0.candidates.contains_key(
                            summary.candidate,
                        ) {
                            FetchState::Pending
                        } else {
                            FetchState::Idle
                        },
                        fetch_extrinsic: if availability && imported.0.candidates.contains_key(
                            summary.candidate,
                        ) {
                            FetchState::Pending
                        } else {
                            FetchState::Idle
                        },
                        produced: ProducedView::empty(),
                    },
                )
            },
        }
    }

    /// Imports a statement from the given source.
    pub open spec fn import(self, statement: SignedStatementView, source: StatementSource) -> (
        SharedTableView,
        ProducerView,
    ) {
        match source {
            StatementSource::Local => (self.import_local(statement), ProducerView::inert()),
            StatementSource::Remote(_) => self.import_remote(statement),
        }
    }

    /// Imports the given statements in order: the shared table afterwards,
    /// and the producers, one per statement.
    pub open spec fn import_all(
        self,
        statements: Seq<(SignedStatementView, StatementSource)>,
    ) -> (SharedTableView, Seq<ProducerView>)
        decreases statements.len(),
    {
        if statements.len() == 0 {
            (self, Seq::empty())
        } else {
            let before = self.import_all(statements.drop_last());
            let last = before.0.import(statements.last().0, statements.last().1);
            (last.0, before.1.push(last.1))
        }
    }
}

/// A start of the validity check for a digest is on record afterwards, and
/// no check is started for a digest that is on record: every check of
/// validity and every check of availability is started at most once.
pub proof fn lemma_checks_start_once(shared: SharedTableView, statement: SignedStatementView)
    ensures
        ({
            let imported = shared.import_remote(statement);
            &&& shared.checked_validity.subset_of(imported.0.checked_validity)
            &&& shared.checked_availability.subset_of(imported.0.checked_availability)
            &&& imported.1.fetch_block_data == FetchState::Pending ==> {
                &&& imported.1.candidate_digest.is_some()
                &&& !shared.checked_validity.contains(imported.1.candidate_digest.unwrap())
                &&& imported.0.checked_validity.contains(imported.1.candidate_digest.unwrap())
            }
            &&& imported.1.fetch_extrinsic == FetchState::Pending ==> {
                &&& imported.1.candidate_digest.is_some()
                &&& !shared.checked_availability.contains(imported.1.candidate_digest.unwrap())
                &&& imported.0.checked_availability.contains(imported.1.candidate_digest.unwrap())
            }
        }),
{
}

/// No import changes the digest of the candidate that the local validator
/// proposed, whatever the source of the statement: only signing a proposal
/// does.
pub proof fn lemma_import_keeps_proposed_digest(
    shared: SharedTableView,
    statement: SignedStatementView,
    source: StatementSource,
)
    ensures
        shared.import(statement, source).0.proposed_digest == shared.proposed_digest,
        shared.import(statement, source).0.context == shared.context,
        shared.checked_validity.subset_of(shared.import(statement, source).0.checked_validity),
        shared.checked_availability.subset_of(
            shared.import(statement, source).0.checked_availability,
        ),
        source is Local ==> shared.import(statement, source).0.checked_validity
            == shared.checked_validity && shared.import(statement, source).0.checked_availability
            == shared.checked_availability && shared.import(statement, source).1
            == ProducerView::inert(),
{
}

/// Importing a statement a second time, from whatever source, changes
/// nothing and causes no work: neither the table nor the record of checks
/// nor the proposed digest is touched.
pub proof fn lemma_shared_import_idempotent(
    shared: SharedTableView,
    statement: SignedStatementView,
    first: StatementSource,
    second: StatementSource,
)
    ensures
        ({
            let once = shared.import(statement, first).0;
            once.import(statement, second) == (once, ProducerView::inert())
        }),
{
    crate::table_laws::lemma_import_idempotent(
        shared.table,
        shared.context,
        statement,
        statement.statement.digest(),
        signature_valid(statement, shared.context.parent_hash),
    );
}

/// The views of a list of statements with their sources.
pub open spec fn sourced_views(statements: Seq<(SignedStatement, StatementSource)>) -> Seq<
    (SignedStatementView, StatementSource),
> {
    statements.map_values(|entry: (SignedStatement, StatementSource)| (entry.0@, entry.1))
}

/// The views of a list of producers.
pub open spec fn producer_views(producers: Seq<StatementProducer>) -> Seq<ProducerView> {
    producers.map_values(|producer: StatementProducer| producer@)
}

/// The statement table of the local validator.
pub struct SharedTable {
    context: TableContext,
    table: Table,
    proposed_digest: Option<primitives::Hash>,
    checked_validity: VecMap<primitives::Hash, ()>,
    checked_availability: VecMap<primitives::Hash, ()>,
}

impl View for SharedTable {
    type V = SharedTableView;

    closed spec fn view(&self) -> SharedTableView {
        SharedTableView {
            context: self.context@,
            table: self.table@,
            proposed_digest: self.proposed_digest,
            checked_validity: self.checked_validity@.dom(),
            checked_availability: self.checked_availability@.dom(),
        }
    }
}

impl SharedTable {
    /// The context of the table: the groups, the local key and the parent.
    pub closed spec fn context(&self) -> &TableContext {
        &self.context
    }

    /// Makes the shared table of a slot from the groups of the slot, the key
    /// to sign with and the hash of the parent block.
    pub fn new(groups: Groups, key: Pair, parent_hash: primitives::Hash) -> (shared: SharedTable)
        ensures
            shared.context().groups@ == groups@,
            shared.context().key == key,
            shared.context().parent_hash == parent_hash,
            shared@.context == shared.context()@,
            shared@.table == TableView::empty(),
            shared@.proposed_digest.is_none(),
            shared@.checked_validity == Set::<primitives::Hash>::empty(),
            shared@.checked_availability == Set::<primitives::Hash>::empty(),
    {
        let shared = SharedTable {
            context: TableContext { parent_hash: parent_hash, key: key, groups: groups },
            table: Table::new(),
            proposed_digest: None,
            checked_validity: VecMap::new(),
            checked_availability: VecMap::new(),
        };
        assert(shared@.checked_validity =~= Set::<primitives::Hash>::empty());
        assert(shared@.checked_availability =~= Set::<primitives::Hash>::empty());
        shared
    }

    /// The groups of the slot.
    pub fn group_info(&self) -> (groups: &Groups)
        ensures
            *groups == self.context().groups,
    {
        &self.context.groups
    }

    /// The context of the table.
    pub fn table_context(&self) -> (context: &TableContext)
        ensures
            context == self.context(),
            context@ == self@.context,
    {
        &self.context
    }

    fn import_local(&mut self, statement: SignedStatement)
        ensures
            final(self)@ == old(self)@.import_local(statement@),
            final(self).context() == old(self).context(),
    {
        self.table.import_statement(&self.context, statement);
    }

    fn import_remote(&mut self, statement: SignedStatement) -> (producer: StatementProducer)
        ensures
            (final(self)@, producer@) == old(self)@.import_remote(statement@),
            final(self).context() == old(self).context(),
    {
        let summary = match self.table.import_statement(&self.context, statement) {
            Some(summary) => summary,
            None => {
                return StatementProducer::default();
            },
        };
        let digest = summary.candidate;
        let local_id = self.context.local_id();
        let is_validity_member = self.context.is_member_of(&local_id, &summary.group_id);
        let is_availability_member = self.context.is_availability_guarantor_of(
            &local_id,
            &summary.group_id,
        );
        let locally_proposed = match self.proposed_digest {
            Some(proposed) => proposed == digest,
            None => false,
        };
        let mut checking_validity = false;
        if is_validity_member && !locally_proposed {
            checking_validity = !self.checked_validity.contains_key(&digest);
            self.checked_validity.insert(digest, ());
            assert(self@.checked_validity =~= old(self)@.checked_validity.insert(digest));
        }
        let mut checking_availability = false;
        if is_availability_member {
            checking_availability = !self.checked_availability.contains_key(&digest);
            self.checked_availability.insert(digest, ());
            assert(self@.checked_availability =~= old(self)@.checked_availability.insert(digest));
        }
        proof {
            if !checking_validity {
                assert(self@.checked_validity =~= old(self)@.checked_validity);
            }
            if !checking_availability {
                assert(self@.checked_availability =~= old(self)@.checked_availability);
            }
        }
        if checking_validity || checking_availability {
            match self.table.get_candidate(&digest) {
                Some(candidate) => StatementProducer::for_candidate(
                    digest,
                    Some(candidate.clone()),
                    checking_validity,
                    checking_availability,
                ),
                None => StatementProducer::for_candidate(digest, None, false, false),
            }
        } else {
            StatementProducer::for_candidate(digest, None, false, false)
        }
    }

    /// Imports a statement and hands back the producer for the work that
    /// the statement causes.
    pub fn import_statement(&mut self, statement: SignedStatement, received_from: StatementSource) -> (producer:
        StatementProducer)
        ensures
            (final(self)@, producer@) == old(self)@.import(statement@, received_from),
            final(self).context() == old(self).context(),
    {
        match received_from {
            StatementSource::Local => {
                self.import_local(statement);
                StatementProducer::default()
            },
            StatementSource::Remote(_) => self.import_remote(statement),
        }
    }

    /// Signs a statement of the local validator and imports it. A proposal
    /// makes its candidate the one that the local validator proposed. The
    /// signature verifies, so the table takes the statement for what it is.
    pub fn sign_and_import(&mut self, statement: Statement)
        ensures
            final(self)@ == old(self)@.sign_and_import(old(self).context().signed(statement@)),
            signature_valid(old(self).context().signed(statement@), old(self)@.context.parent_hash),
            final(self).context() == old(self).context(),
    {
        match &statement {
            Statement::Candidate(receipt) => {
                self.proposed_digest = Some(receipt.hash());
            },
            _ => {},
        }
        let signed = self.context.sign_statement(statement);
        self.import_local(signed);
    }

    /// Imports many statements at once, in order, and hands back their
    /// producers in the same order.
    pub fn import_statements(&mut self, statements: Vec<(SignedStatement, StatementSource)>) -> (producers:
        Vec<StatementProducer>)
        ensures
            (final(self)@, producer_views(producers@)) == old(self)@.import_all(
                sourced_views(statements@),
            ),
            final(self).context() == old(self).context(),
    {
        let ghost all = sourced_views(statements@);
        let mut producers: Vec<StatementProducer> = Vec::new();
        let mut i: usize = 0;
        assert(all.take(0) =~= Seq::<(SignedStatementView, StatementSource)>::empty());
        assert(producer_views(producers@) =~= Seq::<ProducerView>::empty());
        while i < statements.len()
            invariant
                i <= statements.len(),
                all == sourced_views(statements@),
                self.context() == old(self).context(),
                (self@, producer_views(producers@)) == old(self)@.import_all(all.take(i as int)),
            decreases statements.len() - i,
        {
            let statement = statements[i].0.clone();
            let source = statements[i].1;
            let ghost before = producer_views(producers@);
            proof {
                assert(all.take(i + 1).drop_last() =~= all.take(i as int));
                assert(all.take(i + 1).last() == (statement@, source));
            }
            let producer = self.import_statement(statement, source);
            producers.push(producer);
            assert(producer_views(producers@) =~= before.push(producer@));
            i += 1;
        }
        assert(all.take(statements.len() as int) =~= all);
        producers
    }

    /// Tells whether a proposal is valid. No rule for this is laid down
    /// yet: no proposal passes.
    pub fn proposal_valid(&self, _proposal: &crate::proposer::Proposal) -> (valid: bool)
        ensures
            !valid,
    {
        false
    }

    /// The receipt of the candidate with digest `digest`, if it is known.
    pub fn get_candidate(&self, digest: &primitives::Hash) -> (found: Option<&CandidateReceipt>)
        ensures
            match found {
                Some(receipt) => self@.table.candidates.contains_key(*digest) && receipt@
                    == self@.table.candidates[*digest].receipt,
                None => !self@.table.candidates.contains_key(*digest),
            },
    {
        self.table.get_candidate(digest)
    }

    /// Calls `f` with the receipt of the candidate with digest `digest`, or
    /// with nothing if the candidate is not known, and hands back what `f`
    /// returns.
    pub fn with_candidate<U, F: FnOnce(Option<&CandidateReceipt>) -> U>(
        &self,
        digest: &primitives::Hash,
        f: F,
    ) -> (result: U)
        requires
            forall|found: Option<&CandidateReceipt>| f.requires((found,)),
        ensures
            exists|found: Option<&CandidateReceipt>|
                {
                    &&& #[trigger] f.ensures((found,), result)
                    &&& match found {
                        Some(receipt) => self@.table.candidates.contains_key(*digest) && receipt@
                            == self@.table.candidates[*digest].receipt,
                        None => !self@.table.candidates.contains_key(*digest),
                    }
                },
    {
        let found = self.table.get_candidate(digest);
        f(found)
    }

    /// All faults that the table has found, one per validator.
    pub fn get_misbehavior(&self) -> (faults: VecMap<AuthorityId, Misbehavior>)
        ensures
            misbehavior_views(faults@) == self@.table.misbehavior,
    {
        let held = self.table.get_misbehavior();
        let count = held.len();
        let ghost keys = held.key_seq();
        let mut faults: VecMap<AuthorityId, Misbehavior> = VecMap::new();
        let mut i: usize = 0;
        assert(misbehavior_views(faults@) =~= misbehavior_views(held@).restrict(keys.take(0).to_set()));
        while i < count
            invariant
                i <= count,
                count == keys.len(),
                keys == held.key_seq(),
                keys.to_set() == held@.dom(),
                misbehavior_views(faults@) == misbehavior_views(held@).restrict(
                    keys.take(i as int).to_set(),
                ),
            decreases count - i,
        {
            let author = held.key_at(i);
            let fault = held.value_at(i).clone();
            let ghost before = faults@;
            faults.insert(author, fault);
            proof {
                assert(keys.take(i + 1) =~= keys.take(i as int).push(author));
                keys.take(i as int).lemma_push_to_set_commute(author);
                assert(held@.contains_key(author));
                assert(misbehavior_views(faults@) =~= misbehavior_views(before).insert(
                    author,
                    held@[author]@,
                ));
                assert(misbehavior_views(faults@) =~= misbehavior_views(held@).restrict(
                    keys.take(i + 1).to_set(),
                ));
            }
            i += 1;
        }
        proof {
            assert(keys.take(count as int) =~= keys);
            assert(misbehavior_views(held@).restrict(keys.to_set()) =~= misbehavior_views(held@));
        }
        faults
    }

    /// Fills `batch` with statements that no batch has taken yet.
    pub fn fill_batch(&mut self, batch: &mut StatementBatch)
        ensures
            final(self)@.table == old(self)@.table.after_batch(old(batch).remaining as nat),
            final(self)@.context == old(self)@.context,
            final(self)@.proposed_digest == old(self)@.proposed_digest,
            final(self)@.checked_validity == old(self)@.checked_validity,
            final(self)@.checked_availability == old(self)@.checked_availability,
            statement_views(final(batch).statements@) == statement_views(old(batch).statements@)
                + old(self)@.table.batch_for(old(batch).remaining as nat),
            final(batch).remaining == old(batch).remaining - total_size(
                old(self)@.table.batch_for(old(batch).remaining as nat),
            ),
    {
        self.table.fill_batch(batch);
    }

    /// The digest of the candidate that the local validator proposed.
    pub fn proposed_hash(&self) -> (digest: Option<primitives::Hash>)
        ensures
            digest == self@.proposed_digest,
    {
        self.proposed_digest
    }

    /// The statement table.
    pub fn table(&self) -> (table: &Table)
        ensures
            table@ == self@.table,
    {
        &self.table
    }
}

} // verus!
