//! The work that follows a statement: fetching the data of its candidate.
//!
//! A producer does no fetching itself. It says which fetches are wanted,
//! takes what each poll of them brought, and yields what was fetched
//! together with the statements that the data justifies.

use vstd::prelude::*;
use crate::primitives::{self, BlockData, CandidateReceipt, CandidateReceiptView, Extrinsic};
use crate::statement::{Statement, StatementView};

verus! {

/// Where a fetch stands.
#[derive(Clone, Copy, Debug, PartialEq, Eq, Structural)]
pub enum FetchState {
    /// The fetch is not wanted.
    Idle,
    /// The fetch is wanted and has not brought its data yet.
    Pending,
    /// The fetch has brought its data.
    Done,
}

/// What one poll of a fetch brought.
#[derive(Debug)]
pub enum FetchPoll<T, E> {
    /// The fetch was not polled.
    NotPolled,
    /// The data is not there yet.
    NotReady,
    /// The data.
    Ready(T),
    /// The fetch failed.
    Failed(E),
}

/// A value that may not be there yet.
#[derive(Debug)]
pub enum Async<T> {
    /// The value.
    Ready(T),
    /// Not there yet.
    NotReady,
}

/// Statements about one candidate and the data they rest on. Any of them
/// may be missing.
#[derive(Debug)]
pub struct ProducedStatements {
    /// A statement about the validity of the candidate.
    pub validity: Option<Statement>,
    /// A statement about the availability of the candidate's data. Where it
    /// is there, block data and extrinsic are there too.
    pub availability: Option<Statement>,
    /// The block data of the candidate.
    pub block_data: Option<BlockData>,
    /// The extrinsic data of the candidate.
    pub extrinsic: Option<Extrinsic>,
}

/// The contents of a [`ProducedStatements`].
pub struct ProducedView {
    pub validity: Option<StatementView>,
    pub availability: Option<StatementView>,
    pub block_data: Option<Seq<u8>>,
    pub extrinsic: Option<Seq<u8>>,
}

impl ProducedView {
    /// Nothing produced.
    pub open spec fn empty() -> ProducedView {
        ProducedView { validity: None, availability: None, block_data: None, extrinsic: None }
    }
}

impl View for ProducedStatements {
    type V = ProducedView;

    open spec fn view(&self) -> ProducedView {
        ProducedView {
            validity: match self.validity {
                Some(statement) => Some(statement@),
                None => None,
            },
            availability: match self.availability {
                Some(statement) => Some(statement@),
                None => None,
            },
            block_data: match self.block_data {
                Some(data) => Some(data@),
                None => None,
            },
            extrinsic: match self.extrinsic {
                Some(data) => Some(data@),
                None => None,
            },
        }
    }
}

impl Default for ProducedStatements {
    fn default() -> (produced: Self)
        ensures
            produced@ == ProducedView::empty(),
    {
        ProducedStatements { validity: None, availability: None, block_data: None, extrinsic: None }
    }
}

/// What a poll brought, as far as a producer looks at it.
pub enum PollView<E> {
    /// Nothing new.
    Nothing,
    /// The data.
    Ready(Seq<u8>),
    /// The fetch failed.
    Failed(E),
}

/// What a poll of block data brought.
pub open spec fn block_poll_view<E>(poll: FetchPoll<BlockData, E>) -> PollView<E> {
    match poll {
        FetchPoll::NotPolled => PollView::Nothing,
        FetchPoll::NotReady => PollView::Nothing,
        FetchPoll::Ready(data) => PollView::Ready(data@),
        FetchPoll::Failed(error) => PollView::Failed(error),
    }
}

/// What a poll of extrinsic data brought.
pub open spec fn extrinsic_poll_view<E>(poll: FetchPoll<Extrinsic, E>) -> PollView<E> {
    match poll {
        FetchPoll::NotPolled => PollView::Nothing,
        FetchPoll::NotReady => PollView::Nothing,
        FetchPoll::Ready(data) => PollView::Ready(data@),
        FetchPoll::Failed(error) => PollView::Failed(error),
    }
}

/// What a producer holds.
pub struct ProducerView {
    /// The digest of the candidate, if the producer has any work.
    pub candidate_digest: Option<primitives::Hash>,
    /// The receipt to fetch data for, if a fetch is wanted.
    pub candidate: Option<CandidateReceiptView>,
    /// Where the fetch of block data stands.
    pub fetch_block_data: FetchState,
    /// Where the fetch of extrinsic data stands.
    pub fetch_extrinsic: FetchState,
    /// What has been fetched and not yielded yet.
    pub produced: ProducedView,
}

/// What a step of a producer yields.
pub enum StepView<E> {
    /// The producer is done: what it produced.
    Ready(ProducedView),
    /// A fetch that is wanted has not brought its data.
    NotReady,
    /// A fetch failed.
    Failed(E),
}

impl ProducerView {
    /// The producer without work.
    pub open spec fn inert() -> ProducerView {
        ProducerView {
            candidate_digest: None,
            candidate: None,
            fetch_block_data: FetchState::Idle,
            fetch_extrinsic: FetchState::Idle,
            produced: ProducedView::empty(),
        }
    }

    /// The producer after it has looked at what the poll of block data
    /// brought. Only a pending fetch is looked at.
    pub open spec fn with_block_data<E>(self, poll: PollView<E>) -> ProducerView {
        match poll {
            PollView::Ready(data) if self.fetch_block_data == FetchState::Pending => ProducerView {
                fetch_block_data: FetchState::Done,
                produced: ProducedView { block_data: Some(data), ..self.produced },
                ..self
            },
            _ => self,
        }
    }

    /// The producer after it has looked at what the poll of extrinsic data
    /// brought. Only a pending fetch is looked at.
    pub open spec fn with_extrinsic<E>(self, poll: PollView<E>) -> ProducerView {
        match poll {
            PollView::Ready(data) if self.fetch_extrinsic == FetchState::Pending => ProducerView {
                fetch_extrinsic: FetchState::Done,
                produced: ProducedView { extrinsic: Some(data), ..self.produced },
                ..self
            },
            _ => self,
        }
    }

    /// What is yielded when every wanted fetch is done: what was fetched,
    /// with a statement of availability if both kinds of data are there.
    pub open spec fn yielded(self) -> ProducedView {
        if self.candidate_digest.is_some() && self.produced.block_data.is_some()
            && self.produced.extrinsic.is_some() {
            ProducedView {
                availability: Some(StatementView::Available(self.candidate_digest.unwrap())),
                ..self.produced
            }
        } else {
            self.produced
        }
    }

    /// One step of the producer, given what the polls of its fetches
    /// brought: the producer afterwards, and what the step yields.
    ///
    /// A producer without a candidate yields what it holds at once. A failed
    /// fetch of block data ends the step with its error before the extrinsic
    /// data is looked at; a failed fetch of extrinsic data ends it after the
    /// block data was taken. Otherwise the step yields when no fetch is
    /// pending any more. Whatever is yielded is no longer held.
    pub open spec fn step<E>(self, block_data: PollView<E>, extrinsic: PollView<E>) -> (
        ProducerView,
        StepView<E>,
    ) {
        if self.candidate_digest.is_none() {
            (ProducerView { produced: ProducedView::empty(), ..self }, StepView::Ready(self.produced))
        } else if self.fetch_block_data == FetchState::Pending && block_data is Failed {
            (self, StepView::Failed(block_data->Failed_0))
        } else {
            let first = self.with_block_data(block_data);
            if first.fetch_extrinsic == FetchState::Pending && extrinsic is Failed {
                (first, StepView::Failed(extrinsic->Failed_0))
            } else {
                let second = first.with_extrinsic(extrinsic);
                if second.fetch_block_data == FetchState::Pending || second.fetch_extrinsic
                    == FetchState::Pending {
                    (second, StepView::NotReady)
                } else {
                    (
                        ProducerView { produced: ProducedView::empty(), ..second },
                        StepView::Ready(second.yielded()),
                    )
                }
            }
        }
    }
}

/// The view of what a step returned.
pub open spec fn step_view<E>(result: Result<Async<ProducedStatements>, E>) -> StepView<E> {
    match result {
        Ok(Async::Ready(produced)) => StepView::Ready(produced@),
        Ok(Async::NotReady) => StepView::NotReady,
        Err(error) => StepView::Failed(error),
    }
}

/// Produces statements about one candidate from the data fetched for it.
#[derive(Debug)]
pub struct StatementProducer {
    candidate_digest: Option<primitives::Hash>,
    candidate: Option<CandidateReceipt>,
    fetch_block_data: FetchState,
    fetch_extrinsic: FetchState,
    produced_statements: ProducedStatements,
}

impl View for StatementProducer {
    type V = ProducerView;

    closed spec fn view(&self) -> ProducerView {
        ProducerView {
            candidate_digest: self.candidate_digest,
            candidate: match self.candidate {
                Some(receipt) => Some(receipt@),
                None => None,
            },
            fetch_block_data: self.fetch_block_data,
            fetch_extrinsic: self.fetch_extrinsic,
            produced: self.produced_statements@,
        }
    }
}

impl Default for StatementProducer {
    /// The producer without work.
    fn default() -> (producer: Self)
        ensures
            producer@ == ProducerView::inert(),
    {
        StatementProducer {
            candidate_digest: None,
            candidate: None,
            fetch_block_data: FetchState::Idle,
            fetch_extrinsic: FetchState::Idle,
            produced_statements: ProducedStatements::default(),
        }
    }
}

impl StatementProducer {
    /// The producer for the candidate with digest `digest`. A fetch is
    /// pending where it is wanted; `candidate` is the receipt to fetch for.
    pub fn for_candidate(
        digest: primitives::Hash,
        candidate: Option<CandidateReceipt>,
        want_block_data: bool,
        want_extrinsic: bool,
    ) -> (producer: Self)
        ensures
            producer@ == (ProducerView {
                candidate_digest: Some(digest),
                candidate: match candidate {
                    Some(receipt) => Some(receipt@),
                    None => None,
                },
                fetch_block_data: if want_block_data {
                    FetchState::Pending
                } else {
                    FetchState::Idle
                },
                fetch_extrinsic: if want_extrinsic {
                    FetchState::Pending
                } else {
                    FetchState::Idle
                },
                produced: ProducedView::empty(),
            }),
    {
        StatementProducer {
            candidate_digest: Some(digest),
            candidate: candidate,
            fetch_block_data: if want_block_data {
                FetchState::Pending
            } else {
                FetchState::Idle
            },
            fetch_extrinsic: if want_extrinsic {
                FetchState::Pending
            } else {
                FetchState::Idle
            },
            produced_statements: ProducedStatements::default(),
        }
    }

    /// The digest of the candidate, if the producer has any work.
    pub fn candidate_digest(&self) -> (digest: Option<primitives::Hash>)
        ensures
            digest == self@.candidate_digest,
    {
        self.candidate_digest
    }

    /// The receipt to fetch data for, if a fetch was ever wanted.
    pub fn candidate(&self) -> (candidate: Option<&CandidateReceipt>)
        ensures
            match candidate {
                Some(receipt) => self@.candidate == Some(receipt@),
                None => self@.candidate.is_none(),
            },
    {
        self.candidate.as_ref()
    }

    /// Tells whether the fetch of block data is to be polled.
    pub fn wants_block_data(&self) -> (wanted: bool)
        ensures
            wanted == (self@.fetch_block_data == FetchState::Pending),
    {
        self.fetch_block_data == FetchState::Pending
    }

    /// Tells whether the fetch of extrinsic data is to be polled.
    pub fn wants_extrinsic(&self) -> (wanted: bool)
        ensures
            wanted == (self@.fetch_extrinsic == FetchState::Pending),
    {
        self.fetch_extrinsic == FetchState::Pending
    }

    /// One step of the producer, given what the polls of its fetches
    /// brought.
    pub fn poll<E>(&mut self, block_data: FetchPoll<BlockData, E>, extrinsic: FetchPoll<Extrinsic, E>) -> (result:
        Result<Async<ProducedStatements>, E>)
        ensures
            (final(self)@, step_view(result)) == old(self)@.step(
                block_poll_view(block_data),
                extrinsic_poll_view(extrinsic),
            ),
    {
        let digest = match self.candidate_digest {
            Some(digest) => digest,
            None => {
                let mut produced = ProducedStatements::default();
                std::mem::swap(&mut produced, &mut self.produced_statements);
                return Ok(Async::Ready(produced));
            },
        };
        if self.fetch_block_data == FetchState::Pending {
            match block_data {
                FetchPoll::Ready(data) => {
                    self.produced_statements.block_data = Some(data);
                    self.fetch_block_data = FetchState::Done;
                },
                FetchPoll::Failed(error) => {
                    return Err(error);
                },
                _ => {},
            }
        }
        if self.fetch_extrinsic == FetchState::Pending {
            match extrinsic {
                FetchPoll::Ready(data) => {
                    self.produced_statements.extrinsic = Some(data);
                    self.fetch_extrinsic = FetchState::Done;
                },
                FetchPoll::Failed(error) => {
                    return Err(error);
                },
                _ => {},
            }
        }
        if self.fetch_block_data == FetchState::Pending || self.fetch_extrinsic
            == FetchState::Pending {
            return Ok(Async::NotReady);
        }
        let mut produced = ProducedStatements::default();
        std::mem::swap(&mut produced, &mut self.produced_statements);
        if produced.block_data.is_some() && produced.extrinsic.is_some() {
            produced.availability = Some(Statement::Available(digest));
        }
        Ok(Async::Ready(produced))
    }
}

} // verus!
