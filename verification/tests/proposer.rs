use polkadot_consensus::collation::Collation;
use polkadot_consensus::crypto::Pair;
use polkadot_consensus::dynamic_inclusion::DynamicInclusion;
use polkadot_consensus::error::Error;
use polkadot_consensus::primitives::{
    self, AuthorityId, BlockData, CandidateReceipt, Chain, DutyRoster, Extrinsic, ParaId,
    Signature,
};
use polkadot_consensus::proposer::{
    conclude_evaluation, evaluate_proposal, last_pending_index, misbehavior_reports, next_index,
    reported_entries, total_size_of, BftMisbehavior, MisbehaviorKind, Offer, PendingTransaction,
    Proposal, ProposalStep, Proposer, TransactionSelection, MAX_TIMESTAMP_DRIFT,
    MAX_TRANSACTIONS_SIZE,
};

fn hash(tag: u8) -> primitives::Hash {
    primitives::Hash([tag; 32])
}

fn proposal(parent: primitives::Hash, timestamp: u64, sizes: Vec<usize>) -> Proposal {
    Proposal { parent_hash: parent, timestamp, extrinsic_sizes: sizes }
}

#[test]
fn limits_are_as_specified() {
    assert_eq!(MAX_TRANSACTIONS_SIZE, 4194304);
    assert_eq!(MAX_TIMESTAMP_DRIFT, 4);
}

#[test]
fn proposal_one_byte_over_the_limit_is_too_large() {
    let p = proposal(hash(1), 100, vec![4 * 1024 * 1024, 1]);
    assert_eq!(evaluate_proposal(Some(&p), 100, &hash(1)), Err(Error::ProposalTooLarge(4194305)));
}

#[test]
fn proposal_at_the_limit_passes() {
    let p = proposal(hash(1), 100, vec![4 * 1024 * 1024 - 1, 1]);
    assert_eq!(evaluate_proposal(Some(&p), 100, &hash(1)), Ok(()));
}

#[test]
fn timestamp_five_seconds_ahead_is_in_the_future() {
    let p = proposal(hash(1), 105, vec![]);
    assert_eq!(evaluate_proposal(Some(&p), 100, &hash(1)), Err(Error::TimestampInFuture));
}

#[test]
fn timestamp_four_seconds_ahead_proceeds() {
    let p = proposal(hash(1), 104, vec![]);
    assert_eq!(evaluate_proposal(Some(&p), 100, &hash(1)), Ok(()));
}

#[test]
fn timestamp_in_the_past_proceeds() {
    let p = proposal(hash(1), 0, vec![]);
    assert_eq!(evaluate_proposal(Some(&p), u64::MAX, &hash(1)), Ok(()));
}

#[test]
fn timestamp_check_does_not_overflow() {
    let p = proposal(hash(1), u64::MAX, vec![]);
    assert_eq!(evaluate_proposal(Some(&p), u64::MAX - 1, &hash(1)), Ok(()));
    assert_eq!(evaluate_proposal(Some(&p), u64::MAX - 5, &hash(1)), Err(Error::TimestampInFuture));
}

#[test]
fn wrong_parent_is_reported_with_both_hashes() {
    let p = proposal(hash(2), 100, vec![]);
    assert_eq!(
        evaluate_proposal(Some(&p), 100, &hash(1)),
        Err(Error::WrongParentHash(hash(1), hash(2)))
    );
}

#[test]
fn undecodable_proposal_is_not_for_this_chain() {
    assert_eq!(evaluate_proposal(None, 100, &hash(1)), Err(Error::ProposalNotForPolkadot));
}

#[test]
fn size_is_checked_before_parent_and_parent_before_timestamp() {
    let p = proposal(hash(2), 1000, vec![MAX_TRANSACTIONS_SIZE + 1]);
    assert_eq!(
        evaluate_proposal(Some(&p), 100, &hash(1)),
        Err(Error::ProposalTooLarge(MAX_TRANSACTIONS_SIZE + 1))
    );
    let p = proposal(hash(2), 1000, vec![1]);
    assert_eq!(
        evaluate_proposal(Some(&p), 100, &hash(1)),
        Err(Error::WrongParentHash(hash(1), hash(2)))
    );
}

#[test]
fn sizes_that_cannot_be_added_count_as_the_largest_size() {
    assert_eq!(total_size_of(&vec![usize::MAX, 5]), usize::MAX);
    assert_eq!(total_size_of(&vec![1, 2, 3]), 6);
    assert_eq!(total_size_of(&vec![]), 0);
}

#[test]
fn client_verdict_concludes_the_evaluation() {
    assert_eq!(conclude_evaluation(Ok(()), Ok(())), Ok(true));
    assert_eq!(
        conclude_evaluation(Ok(()), Err("bad block".to_string())),
        Err(Error::ClientError("bad block".to_string()))
    );
    assert_eq!(
        conclude_evaluation(Err(Error::TimestampInFuture), Ok(())),
        Err(Error::TimestampInFuture)
    );
}

#[test]
fn every_error_has_a_description() {
    let errors = vec![
        Error::InvalidDutyRosterLength(1, 2),
        Error::UnknownParent,
        Error::ProposalNotForPolkadot,
        Error::ProposalTooLarge(1),
        Error::WrongParentHash(hash(1), hash(2)),
        Error::TimestampInFuture,
        Error::ClientError("x".to_string()),
        Error::FetchError("y".to_string()),
    ];
    let mut seen = Vec::new();
    for error in errors.iter() {
        let text = error.description();
        assert!(!text.is_empty());
        assert!(!seen.contains(&text));
        seen.push(text);
    }
}

#[test]
fn selection_culls_oversized_and_stops_when_full() {
    let mut selection = TransactionSelection::new();
    let huge = PendingTransaction { hash: hash(1), encoded_size: MAX_TRANSACTIONS_SIZE + 1 };
    let half = PendingTransaction { hash: hash(2), encoded_size: MAX_TRANSACTIONS_SIZE / 2 };
    let other_half = PendingTransaction { hash: hash(3), encoded_size: MAX_TRANSACTIONS_SIZE / 2 };
    let one = PendingTransaction { hash: hash(4), encoded_size: 1 };

    assert_eq!(selection.offer(&huge), Offer::Cull);
    assert_eq!(selection.offer(&half), Offer::Push);
    selection.pushed(&half, true);
    assert_eq!(selection.pending_size(), MAX_TRANSACTIONS_SIZE / 2);
    assert_eq!(selection.offer(&other_half), Offer::Push);
    selection.pushed(&other_half, true);
    assert_eq!(selection.pending_size(), MAX_TRANSACTIONS_SIZE);
    assert_eq!(selection.offer(&one), Offer::Stop);
    assert_eq!(selection.finish(), vec![hash(1)]);
}

#[test]
fn selection_culls_what_the_builder_refuses() {
    let mut selection = TransactionSelection::new();
    let first = PendingTransaction { hash: hash(1), encoded_size: 10 };
    let second = PendingTransaction { hash: hash(2), encoded_size: 20 };
    assert_eq!(selection.offer(&first), Offer::Push);
    selection.pushed(&first, false);
    assert_eq!(selection.pending_size(), 0);
    assert_eq!(selection.offer(&second), Offer::Push);
    selection.pushed(&second, true);
    assert_eq!(selection.pending_size(), 20);
    assert_eq!(selection.finish(), vec![hash(1)]);
}

#[test]
fn transaction_of_exactly_the_limit_is_pushed() {
    let mut selection = TransactionSelection::new();
    let full = PendingTransaction { hash: hash(1), encoded_size: MAX_TRANSACTIONS_SIZE };
    assert_eq!(selection.offer(&full), Offer::Push);
}

#[test]
fn next_index_follows_pool_then_chain() {
    assert_eq!(next_index(Some(7), Some(3)), Some(8));
    assert_eq!(next_index(None, Some(3)), Some(4));
    assert_eq!(next_index(None, None), None);
    assert_eq!(next_index(Some(u64::MAX), Some(3)), None);
}

#[test]
fn only_double_votes_are_reported_with_consecutive_indices() {
    let sig = Signature([5; 64]);
    let local = AuthorityId([9; 32]);
    let faults = vec![
        (AuthorityId([1; 32]), BftMisbehavior::ProposeOutOfTurn(1, hash(1), sig)),
        (AuthorityId([2; 32]), BftMisbehavior::DoublePrepare(2, (hash(2), sig), (hash(3), sig))),
        (AuthorityId([3; 32]), BftMisbehavior::DoublePropose(3, (hash(4), sig), (hash(5), sig))),
        (AuthorityId([4; 32]), BftMisbehavior::DoubleCommit(4, (hash(6), sig), (hash(7), sig))),
    ];
    let reports = misbehavior_reports(local, hash(8), 42, 10, &faults);
    assert_eq!(reports.len(), 2);
    assert_eq!(reports[0].signed, local);
    assert_eq!(reports[0].index, 10);
    assert_eq!(reports[0].report.parent_hash, hash(8));
    assert_eq!(reports[0].report.parent_number, 42);
    assert_eq!(reports[0].report.target, AuthorityId([2; 32]));
    match reports[0].report.misbehavior {
        MisbehaviorKind::BftDoublePrepare(round, first, second) => {
            assert_eq!(round, 2);
            assert_eq!(first, (hash(2), sig));
            assert_eq!(second, (hash(3), sig));
        }
        _ => panic!("expected a double prepare"),
    }
    assert_eq!(reports[1].index, 11);
    assert_eq!(reports[1].report.target, AuthorityId([4; 32]));
    assert!(matches!(reports[1].report.misbehavior, MisbehaviorKind::BftDoubleCommit(4, _, _)));
}

#[test]
fn indices_are_needed_for_reported_faults_only() {
    let sig = Signature([5; 64]);
    let faults = vec![
        (AuthorityId([1; 32]), BftMisbehavior::ProposeOutOfTurn(1, hash(1), sig)),
        (AuthorityId([2; 32]), BftMisbehavior::DoublePropose(2, (hash(2), sig), (hash(3), sig))),
        (AuthorityId([3; 32]), BftMisbehavior::DoubleCommit(3, (hash(4), sig), (hash(5), sig))),
    ];
    assert_eq!(reported_entries(&faults), 1);
    assert_eq!(reported_entries(&vec![]), 0);
    let reports = misbehavior_reports(AuthorityId([9; 32]), hash(8), 1, u64::MAX - 1, &faults);
    assert_eq!(reports.len(), 1);
    assert_eq!(reports[0].index, u64::MAX - 1);
    assert_eq!(reports[0].report.target, AuthorityId([3; 32]));
}

#[test]
fn round_of_a_report_is_its_low_32_bits() {
    let sig = Signature([5; 64]);
    let faults = vec![(
        AuthorityId([1; 32]),
        BftMisbehavior::DoublePrepare(u32::MAX as usize, (hash(1), sig), (hash(2), sig)),
    )];
    let reports = misbehavior_reports(AuthorityId([9; 32]), hash(8), 1, 0, &faults);
    assert!(matches!(
        reports[0].report.misbehavior,
        MisbehaviorKind::BftDoublePrepare(u32::MAX, _, _)
    ));
}

#[test]
fn last_pending_index_is_that_of_the_last_own_transaction() {
    let local = AuthorityId([1; 32]);
    let other = AuthorityId([2; 32]);
    assert_eq!(last_pending_index(&vec![], &local), None);
    assert_eq!(last_pending_index(&vec![(other, 4)], &local), None);
    assert_eq!(
        last_pending_index(&vec![(local, 7), (other, 4), (local, 9), (other, 5)], &local),
        Some(9)
    );
    assert_eq!(last_pending_index(&vec![(local, 7), (local, 3)], &local), Some(3));
}

#[test]
fn dynamic_inclusion_waits_for_missing_parachains() {
    let timer = DynamicInclusion::new(2, 1000, 500);
    assert_eq!(timer.earliest_bake(2), Some(1000));
    assert_eq!(timer.earliest_bake(1), Some(1500));
    assert_eq!(timer.earliest_bake(0), Some(1500));
    assert!(timer.acceptable_at(1000, 2));
    assert!(!timer.acceptable_at(999, 2));
    assert!(!timer.acceptable_at(1499, 1));
    assert!(timer.acceptable_at(1500, 1));
}

#[test]
fn dynamic_inclusion_without_parachains_never_waits() {
    let timer = DynamicInclusion::new(0, 1000, 500);
    assert_eq!(timer.earliest_bake(0), Some(1000));
    assert!(timer.acceptable_at(1000, 0));
}

#[test]
fn dynamic_inclusion_beyond_the_clock() {
    let timer = DynamicInclusion::new(1, u64::MAX - 1, 5);
    assert_eq!(timer.earliest_bake(0), None);
    assert!(!timer.acceptable_at(u64::MAX, 0));
    assert!(timer.acceptable_at(u64::MAX, 1));
}

fn receipt(para: u32) -> CandidateReceipt {
    CandidateReceipt {
        parachain_index: ParaId(para),
        collator: AuthorityId([7; 32]),
        signature: Signature([8; 64]),
        head_data: vec![1, 2, 3],
        balance_uploads: vec![],
        egress_queue_roots: vec![],
        fees: 0,
    }
}

#[test]
fn init_derives_groups_and_arms_the_timer() {
    let key = Pair::from_seed(&[1; 32]);
    let local = key.public();
    let other = Pair::from_seed(&[2; 32]).public();
    let roster = DutyRoster {
        validator_duty: vec![Chain::Parachain(ParaId(1)), Chain::Parachain(ParaId(2))],
        guarantor_duty: vec![Chain::Parachain(ParaId(2)), Chain::Parachain(ParaId(1))],
    };
    let proposer = Proposer::init(hash(1), 5, roster, &[local, other], key, 1000, 500).unwrap();
    assert_eq!(proposer.parent_hash, hash(1));
    assert_eq!(proposer.parent_number, 5);
    assert_eq!(proposer.dynamic_inclusion.n_parachains, 2);
    assert_eq!(proposer.table.group_info().len(), 2);
    assert_eq!(proposer.included_parachains(), 0);
    assert_eq!(proposer.step(1499), ProposalStep::Pending);
    assert_eq!(proposer.step(1500), ProposalStep::Bake);
}

#[test]
fn init_refuses_a_roster_of_the_wrong_length() {
    let key = Pair::from_seed(&[1; 32]);
    let roster = DutyRoster { validator_duty: vec![], guarantor_duty: vec![] };
    let result = Proposer::init(hash(1), 5, roster, &[key.public()], key, 0, 0);
    assert_eq!(result.err(), Some(Error::InvalidDutyRosterLength(1, 0)));
}

#[test]
fn proposer_evaluates_against_its_parent() {
    let key = Pair::from_seed(&[1; 32]);
    let roster = DutyRoster { validator_duty: vec![Chain::Relay], guarantor_duty: vec![Chain::Relay] };
    let proposer = Proposer::init(hash(1), 5, roster, &[key.public()], key, 0, 0).unwrap();
    assert_eq!(proposer.evaluate(Some(&proposal(hash(1), 10, vec![1])), 10), Ok(()));
    assert_eq!(
        proposer.evaluate(Some(&proposal(hash(3), 10, vec![1])), 10),
        Err(Error::WrongParentHash(hash(1), hash(3)))
    );
    let sig = Signature([5; 64]);
    let reports = proposer.import_misbehavior(
        3,
        &vec![(AuthorityId([2; 32]), BftMisbehavior::DoubleCommit(1, (hash(2), sig), (hash(3), sig)))],
    );
    assert_eq!(reports.len(), 1);
    assert_eq!(reports[0].signed, key.public());
    assert_eq!(reports[0].index, 3);
}

#[test]
fn collation_is_stated_valid_under_its_digest() {
    let key = Pair::from_seed(&[1; 32]);
    let roster = DutyRoster {
        validator_duty: vec![Chain::Parachain(ParaId(1))],
        guarantor_duty: vec![Chain::Parachain(ParaId(1))],
    };
    let mut proposer = Proposer::init(hash(1), 5, roster, &[key.public()], key, 0, 0).unwrap();
    let collation = Collation {
        receipt: receipt(1),
        block_data: BlockData(vec![1]),
        extrinsic: Extrinsic(vec![2]),
    };
    let digest = proposer.note_collation(&collation);
    assert_eq!(digest, collation.receipt.hash());
    // The vote waits for the proposal of the candidate.
    assert!(proposer.table.get_candidate(&digest).is_none());
    assert_eq!(proposer.table.proposed_hash(), None);
}
