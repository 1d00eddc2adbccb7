//! Batches of statements for the network, bounded in bytes.

use vstd::prelude::*;
use crate::statement::{encode_statement, SignedStatement, SignedStatementView};

verus! {

/// The bytes that a signed statement takes on the wire: the statement, the
/// sender's key and the signature.
pub open spec fn signed_size(statement: SignedStatementView) -> nat {
    encode_statement(statement.statement).len() + 96
}

/// The bytes that all of `statements` take on the wire.
pub open spec fn total_size(statements: Seq<SignedStatementView>) -> nat
    decreases statements.len(),
{
    if statements.len() == 0 {
        0
    } else {
        signed_size(statements[0]) + total_size(statements.drop_first())
    }
}

/// How many statements from the front of `statements` fit into `budget`
/// bytes, taken in order and stopping at the first that does not fit.
pub open spec fn fitting(statements: Seq<SignedStatementView>, budget: nat) -> nat
    decreases statements.len(),
{
    if statements.len() == 0 || signed_size(statements[0]) > budget {
        0
    } else {
        1 + fitting(statements.drop_first(), (budget - signed_size(statements[0])) as nat)
    }
}

/// What is fitted is part of what was offered, and stays within the budget.
pub proof fn lemma_fitting_bounds(statements: Seq<SignedStatementView>, budget: nat)
    ensures
        fitting(statements, budget) <= statements.len(),
        total_size(statements.take(fitting(statements, budget) as int)) <= budget,
    decreases statements.len(),
{
    if statements.len() == 0 || signed_size(statements[0]) > budget {
        assert(statements.take(0) =~= Seq::<SignedStatementView>::empty());
    } else {
        let rest = statements.drop_first();
        let left = (budget - signed_size(statements[0])) as nat;
        lemma_fitting_bounds(rest, left);
        let n = fitting(rest, left);
        assert(statements.take(n as int + 1).drop_first() =~= rest.take(n as int));
    }
}

/// One more statement at the end adds its size to the total.
pub proof fn lemma_total_size_push(statements: Seq<SignedStatementView>, last: SignedStatementView)
    ensures
        total_size(statements.push(last)) == total_size(statements) + signed_size(last),
    decreases statements.len(),
{
    if statements.len() == 0 {
        reveal_with_fuel(total_size, 2);
        assert(statements.push(last).drop_first() =~= Seq::<SignedStatementView>::empty());
        assert(statements.push(last)[0] == last);
    } else {
        lemma_total_size_push(statements.drop_first(), last);
        assert(statements.push(last)[0] == statements[0]);
        assert(statements.push(last).drop_first() =~= statements.drop_first().push(last));
    }
}

/// The size of two lists together is the sum of their sizes.
pub proof fn lemma_total_size_add(first: Seq<SignedStatementView>, second: Seq<SignedStatementView>)
    ensures
        total_size(first + second) == total_size(first) + total_size(second),
    decreases second.len(),
{
    if second.len() == 0 {
        assert(first + second =~= first);
    } else {
        lemma_total_size_add(first, second.drop_last());
        lemma_total_size_push(first + second.drop_last(), second.last());
        lemma_total_size_push(second.drop_last(), second.last());
        assert(first + second =~= (first + second.drop_last()).push(second.last()));
        assert(second =~= second.drop_last().push(second.last()));
    }
}

/// The views of a list of signed statements.
pub open spec fn statement_views(statements: Seq<SignedStatement>) -> Seq<SignedStatementView> {
    statements.map_values(|s: SignedStatement| s@)
}

/// A batch of statements with a budget of bytes.
#[derive(Debug)]
pub struct StatementBatch {
    /// The bytes that the batch can still take.
    pub remaining: usize,
    /// The statements of the batch, in the order in which they were added.
    pub statements: Vec<SignedStatement>,
}

impl StatementBatch {
    /// The empty batch that can take `budget` bytes.
    pub fn new(budget: usize) -> (batch: StatementBatch)
        ensures
            batch.remaining == budget,
            batch.statements@ == Seq::<SignedStatement>::empty(),
    {
        StatementBatch { remaining: budget, statements: Vec::new() }
    }

    /// Adds `statement` if it fits into the bytes that remain, and tells
    /// whether it did.
    pub fn push(&mut self, statement: SignedStatement) -> (added: bool)
        ensures
            added == (signed_size(statement@) <= old(self).remaining),
            added ==> final(self).remaining == old(self).remaining - signed_size(statement@)
                && statement_views(final(self).statements@) == statement_views(
                old(self).statements@,
            ).push(statement@),
            !added ==> *final(self) == *old(self),
    {
        let encoded = statement.statement.encode();
        let length = encoded.len();
        if length > self.remaining || self.remaining - length < 96 {
            return false;
        }
        self.remaining = self.remaining - length - 96;
        self.statements.push(statement);
        assert(statement_views(self.statements@) =~= statement_views(old(self).statements@).push(
            statement@,
        ));
        true
    }

    /// Moves statements from the front of `queue` into the batch, in order,
    /// until one does not fit or the queue is empty, and tells whether the
    /// queue is empty now.
    pub fn take_from(&mut self, queue: &mut Vec<SignedStatement>) -> (emptied: bool)
        ensures
            ({
                let offered = statement_views(old(queue)@);
                let taken = fitting(offered, old(self).remaining as nat);
                &&& taken <= offered.len()
                &&& emptied == (taken == offered.len())
                &&& statement_views(final(queue)@) == offered.skip(taken as int)
                &&& statement_views(final(self).statements@) == statement_views(
                    old(self).statements@,
                ) + offered.take(taken as int)
                &&& final(self).remaining == old(self).remaining - total_size(
                    offered.take(taken as int),
                )
            }),
    {
        let ghost offered = statement_views(queue@);
        let ghost budget = self.remaining as nat;
        let ghost held = statement_views(self.statements@);
        let mut count: usize = 0;
        proof {
            assert(offered.skip(0) =~= offered);
            assert(offered.take(0) =~= Seq::<SignedStatementView>::empty());
            assert(held + offered.take(0) =~= held);
            lemma_fitting_bounds(offered, budget);
        }
        while count < queue.len()
            invariant
                count <= queue.len(),
                offered == statement_views(queue@),
                fitting(offered, budget) == count + fitting(
                    offered.skip(count as int),
                    self.remaining as nat,
                ),
                statement_views(self.statements@) == held + offered.take(count as int),
                self.remaining == budget - total_size(offered.take(count as int)),
                total_size(offered.take(count as int)) <= budget,
            ensures
                count <= queue.len(),
                offered == statement_views(queue@),
                fitting(offered, budget) == count,
                statement_views(self.statements@) == held + offered.take(count as int),
                self.remaining == budget - total_size(offered.take(count as int)),
            decreases queue.len() - count,
        {
            let statement = queue[count].clone();
            proof {
                assert(offered.skip(count as int)[0] == statement@);
                assert(offered.skip(count as int).drop_first() =~= offered.skip(count + 1));
                lemma_total_size_push(offered.take(count as int), statement@);
                assert(offered.take(count + 1) =~= offered.take(count as int).push(statement@));
                assert(held + offered.take(count + 1) =~= (held + offered.take(count as int)).push(
                    statement@,
                ));
            }
            if !self.push(statement) {
                break ;
            }
            count += 1;
        }
        proof {
            if count == queue.len() {
                assert(offered.skip(count as int) =~= Seq::<SignedStatementView>::empty());
            }
        }
        let rest = queue.split_off(count);
        let emptied = rest.len() == 0;
        *queue = rest;
        proof {
            assert(statement_views(queue@) =~= offered.skip(count as int));
        }
        emptied
    }
}

} // verus!
