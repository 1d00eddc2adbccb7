use polkadot_consensus::batch::StatementBatch;
use polkadot_consensus::candidate::ValidityVote;
use polkadot_consensus::context::TableContext;
use polkadot_consensus::crypto::{hash_of, verify, Pair};
use polkadot_consensus::group_info::{make_group_info, Groups};
use polkadot_consensus::misbehavior::Misbehavior;
use polkadot_consensus::primitives::{
    self, AuthorityId, CandidateReceipt, Chain, DutyRoster, ParaId, Signature,
};
use polkadot_consensus::statement::{
    check_statement_signature, sign_table_statement, SignedStatement, Statement,
};
use polkadot_consensus::table::{Summary, Table};

fn pair(tag: u8) -> Pair {
    Pair::from_seed(&[tag; 32])
}

fn parent() -> primitives::Hash {
    primitives::Hash([42; 32])
}

fn receipt(para: u32, tag: u8) -> CandidateReceipt {
    CandidateReceipt {
        parachain_index: ParaId(para),
        collator: AuthorityId([tag; 32]),
        signature: Signature([tag; 64]),
        head_data: vec![tag, 2, 3],
        balance_uploads: vec![(AuthorityId([1; 32]), 5)],
        egress_queue_roots: vec![(ParaId(9), primitives::Hash([3; 32]))],
        fees: 1_000_000,
    }
}

fn signed(key: &Pair, statement: Statement) -> SignedStatement {
    let signature = sign_table_statement(&statement, key, &parent());
    SignedStatement { statement, signature, sender: key.public() }
}

/// Validity guarantors of parachain 1: keys 1, 2, 3. Availability
/// guarantors of parachain 1: keys 4, 5, 6. Key 7 checks parachain 2.
fn groups() -> Groups {
    let authorities: Vec<AuthorityId> = (1..=7).map(|tag| pair(tag).public()).collect();
    let one = Chain::Parachain(ParaId(1));
    let two = Chain::Parachain(ParaId(2));
    let roster = DutyRoster {
        validator_duty: vec![one, one, one, Chain::Relay, Chain::Relay, Chain::Relay, two],
        guarantor_duty: vec![Chain::Relay, Chain::Relay, Chain::Relay, one, one, one, two],
    };
    make_group_info(roster, &authorities).unwrap()
}

fn context() -> TableContext {
    TableContext { parent_hash: parent(), key: pair(1), groups: groups() }
}

#[test]
fn blake2_of_the_empty_string() {
    let expected: [u8; 32] = [
        0x0e, 0x57, 0x51, 0xc0, 0x26, 0xe5, 0x43, 0xb2, 0xe8, 0xab, 0x2e, 0xb0, 0x60, 0x99, 0xda,
        0xa1, 0xd1, 0xe5, 0xdf, 0x47, 0x77, 0x8f, 0x77, 0x87, 0xfa, 0xab, 0x45, 0xcd, 0xf1, 0x2f,
        0xe3, 0xa8,
    ];
    assert_eq!(hash_of(&[]).0, expected);
    assert_ne!(hash_of(&[0]).0, expected);
}

#[test]
fn public_key_of_a_known_seed() {
    let seed: [u8; 32] = [
        0x9d, 0x61, 0xb1, 0x9d, 0xef, 0xfd, 0x5a, 0x60, 0xba, 0x84, 0x4a, 0xf4, 0x92, 0xec, 0x2c,
        0xc4, 0x44, 0x49, 0xc5, 0x69, 0x7b, 0x32, 0x69, 0x19, 0x70, 0x3b, 0xac, 0x03, 0x1c, 0xae,
        0x7f, 0x60,
    ];
    let public: [u8; 32] = [
        215, 90, 152, 1, 130, 177, 10, 183, 213, 75, 254, 211, 201, 100, 7, 58, 14, 225, 114, 243,
        218, 166, 35, 37, 175, 2, 26, 104, 247, 7, 81, 26,
    ];
    let key = Pair::from_seed(&seed);
    assert_eq!(key.public().0, public);
    let signature = key.sign(&[]);
    assert!(verify(&key.public(), &[], &signature));
    assert!(!verify(&key.public(), &[1], &signature));
    assert_eq!(&signature.0[..4], &[0xe5, 0x56, 0x43, 0x00]);
}

#[test]
fn bytes_that_are_no_key_verify_nothing() {
    let key = pair(1);
    let signature = key.sign(b"message");
    // y = 2 is not the y-coordinate of a point on the curve.
    let mut bogus = [0u8; 32];
    bogus[0] = 2;
    assert!(!verify(&AuthorityId(bogus), b"message", &signature));
}

#[test]
fn signature_verifies_for_signer_and_parent_only() {
    let key = pair(2);
    let statement = Statement::Valid(primitives::Hash([1; 32]));
    let signature = sign_table_statement(&statement, &key, &parent());
    let mut payload = statement.encode();
    payload.extend_from_slice(&parent().0);
    assert_eq!(statement.payload(&parent()), payload);
    assert!(verify(&key.public(), &payload, &signature));

    let good = SignedStatement { statement: statement.clone(), signature, sender: key.public() };
    assert!(check_statement_signature(&good, &parent()));
    assert!(!check_statement_signature(&good, &primitives::Hash([43; 32])));

    let other = SignedStatement { statement, signature, sender: pair(3).public() };
    assert!(!check_statement_signature(&other, &parent()));
}

#[test]
fn statements_are_encoded_with_their_tag() {
    let digest = primitives::Hash([7; 32]);
    let mut expected = vec![2u8];
    expected.extend_from_slice(&[7; 32]);
    assert_eq!(Statement::Valid(digest).encode(), expected);
    expected[0] = 3;
    assert_eq!(Statement::Invalid(digest).encode(), expected);
    expected[0] = 4;
    assert_eq!(Statement::Available(digest).encode(), expected);
}

#[test]
fn receipts_are_encoded_field_by_field() {
    let r = receipt(0x0102_0304, 9);
    let mut expected = vec![4u8, 3, 2, 1];
    expected.extend_from_slice(&[9; 32]);
    expected.extend_from_slice(&[9; 64]);
    expected.extend_from_slice(&[3, 0, 0, 0, 0, 0, 0, 0]);
    expected.extend_from_slice(&[9, 2, 3]);
    expected.extend_from_slice(&[1, 0, 0, 0, 0, 0, 0, 0]);
    expected.extend_from_slice(&[1; 32]);
    expected.extend_from_slice(&[5, 0, 0, 0, 0, 0, 0, 0]);
    expected.extend_from_slice(&[1, 0, 0, 0, 0, 0, 0, 0]);
    expected.extend_from_slice(&[9, 0, 0, 0]);
    expected.extend_from_slice(&[3; 32]);
    expected.extend_from_slice(&1_000_000u64.to_le_bytes());
    assert_eq!(r.encode(), expected);
    assert_eq!(r.hash(), hash_of(&expected));

    let mut candidate = vec![1u8];
    candidate.extend_from_slice(&expected);
    assert_eq!(Statement::Candidate(r).encode(), candidate);
}

#[test]
fn hashes_are_ordered_by_their_bytes() {
    let mut low = [0u8; 32];
    let mut high = [0u8; 32];
    low[31] = 255;
    high[0] = 1;
    assert!(primitives::Hash(low).precedes(&primitives::Hash(high)));
    assert!(!primitives::Hash(high).precedes(&primitives::Hash(low)));
    assert!(!primitives::Hash(low).precedes(&primitives::Hash(low)));
}

#[test]
fn candidate_with_quorums_is_includable() {
    let ctx = context();
    let mut table = Table::new();
    let r = receipt(1, 1);
    let digest = r.hash();

    let summary = table.import_statement(&ctx, signed(&pair(1), Statement::Candidate(r.clone())));
    assert_eq!(summary, Some(Summary { candidate: digest, group_id: ParaId(1) }));
    assert!(!table.candidate_includable(&digest, &ctx));

    assert!(table.import_statement(&ctx, signed(&pair(2), Statement::Valid(digest))).is_some());
    assert!(!table.candidate_includable(&digest, &ctx));
    assert!(table.import_statement(&ctx, signed(&pair(4), Statement::Available(digest))).is_some());
    assert!(!table.candidate_includable(&digest, &ctx));
    assert!(table.import_statement(&ctx, signed(&pair(5), Statement::Available(digest))).is_some());

    let record = table.get_candidate_data(&digest).unwrap();
    assert_eq!(record.valid_votes(), 2);
    assert_eq!(record.invalid_votes(), 0);
    assert_eq!(record.available_votes(), 2);
    assert_eq!(record.proposer, pair(1).public());
    assert_eq!(record.group_id, ParaId(1));
    assert!(matches!(
        record.validity_votes.get(&pair(1).public()),
        Some(ValidityVote::Implicit(_))
    ));
    assert!(table.candidate_includable(&digest, &ctx));
    assert_eq!(table.get_candidate(&digest), Some(&r));
    assert_eq!(table.proposed_candidates(&ctx), vec![&r]);
    assert_eq!(table.proposed_digests(&ctx), vec![digest]);
}

#[test]
fn one_vote_of_invalidity_bars_inclusion() {
    let ctx = context();
    let mut table = Table::new();
    let r = receipt(1, 1);
    let digest = r.hash();
    table.import_statement(&ctx, signed(&pair(1), Statement::Candidate(r)));
    table.import_statement(&ctx, signed(&pair(2), Statement::Valid(digest)));
    table.import_statement(&ctx, signed(&pair(4), Statement::Available(digest)));
    table.import_statement(&ctx, signed(&pair(5), Statement::Available(digest)));
    assert!(table.candidate_includable(&digest, &ctx));
    assert!(table.import_statement(&ctx, signed(&pair(3), Statement::Invalid(digest))).is_some());
    let record = table.get_candidate_data(&digest).unwrap();
    assert_eq!(record.valid_votes(), 2);
    assert_eq!(record.invalid_votes(), 1);
    assert!(!record.can_be_included(2, 2));
    assert!(!table.candidate_includable(&digest, &ctx));
    assert!(table.proposed_candidates(&ctx).is_empty());
}

#[test]
fn unknown_candidate_is_not_includable() {
    let ctx = context();
    let table = Table::new();
    assert!(!table.candidate_includable(&primitives::Hash([1; 32]), &ctx));
    assert!(table.get_candidate(&primitives::Hash([1; 32])).is_none());
}

#[test]
fn valid_then_invalid_is_a_double_vote() {
    let ctx = context();
    let mut table = Table::new();
    let r = receipt(1, 1);
    let digest = r.hash();
    table.import_statement(&ctx, signed(&pair(1), Statement::Candidate(r)));
    let valid = signed(&pair(2), Statement::Valid(digest));
    let invalid = signed(&pair(2), Statement::Invalid(digest));
    let (valid_signature, invalid_signature) = (valid.signature, invalid.signature);
    assert!(table.import_statement(&ctx, valid).is_some());
    assert!(table.import_statement(&ctx, invalid).is_none());

    let record = table.get_candidate_data(&digest).unwrap();
    assert_eq!(record.valid_votes(), 2);
    assert_eq!(record.invalid_votes(), 0);
    assert_eq!(
        table.get_misbehavior().get(&pair(2).public()),
        Some(&Misbehavior::ValidityDoubleVote(digest, valid_signature, invalid_signature))
    );
    assert_eq!(table.get_misbehavior().len(), 1);
}

#[test]
fn invalid_then_valid_is_a_double_vote_too() {
    let ctx = context();
    let mut table = Table::new();
    let r = receipt(1, 1);
    let digest = r.hash();
    table.import_statement(&ctx, signed(&pair(1), Statement::Candidate(r)));
    let invalid = signed(&pair(2), Statement::Invalid(digest));
    let valid = signed(&pair(2), Statement::Valid(digest));
    let (valid_signature, invalid_signature) = (valid.signature, invalid.signature);
    assert!(table.import_statement(&ctx, invalid).is_some());
    assert!(table.import_statement(&ctx, valid).is_none());
    let record = table.get_candidate_data(&digest).unwrap();
    assert_eq!(record.valid_votes(), 1);
    assert_eq!(record.invalid_votes(), 1);
    assert_eq!(
        table.get_misbehavior().get(&pair(2).public()),
        Some(&Misbehavior::ValidityDoubleVote(digest, valid_signature, invalid_signature))
    );
}

#[test]
fn proposer_voting_on_its_own_candidate_is_at_fault() {
    let ctx = context();
    let mut table = Table::new();
    let r = receipt(1, 1);
    let digest = r.hash();
    let proposal = signed(&pair(1), Statement::Candidate(r));
    let issued = proposal.signature;
    table.import_statement(&ctx, proposal);
    let vote = signed(&pair(1), Statement::Valid(digest));
    let valid = vote.signature;
    assert!(table.import_statement(&ctx, vote).is_none());
    assert_eq!(
        table.get_misbehavior().get(&pair(1).public()),
        Some(&Misbehavior::DoubleCandidate(digest, issued, valid))
    );
    assert_eq!(table.get_candidate_data(&digest).unwrap().valid_votes(), 1);
}

#[test]
fn importing_twice_is_importing_once() {
    let ctx = context();
    let mut table = Table::new();
    let r = receipt(1, 1);
    let digest = r.hash();
    let proposal = signed(&pair(1), Statement::Candidate(r));
    assert!(table.import_statement(&ctx, proposal.clone()).is_some());
    assert!(table.import_statement(&ctx, proposal).is_none());
    let vote = signed(&pair(2), Statement::Valid(digest));
    assert!(table.import_statement(&ctx, vote.clone()).is_some());
    assert!(table.import_statement(&ctx, vote).is_none());
    let available = signed(&pair(4), Statement::Available(digest));
    assert!(table.import_statement(&ctx, available.clone()).is_some());
    assert!(table.import_statement(&ctx, available).is_none());

    let record = table.get_candidate_data(&digest).unwrap();
    assert_eq!(record.valid_votes(), 2);
    assert_eq!(record.available_votes(), 1);
    assert_eq!(table.get_misbehavior().len(), 0);

    let mut batch = StatementBatch::new(usize::MAX);
    table.fill_batch(&mut batch);
    assert_eq!(batch.statements.len(), 3);
}

#[test]
fn only_the_first_misbehavior_is_kept() {
    let ctx = context();
    let mut table = Table::new();
    let r = receipt(1, 1);
    let digest = r.hash();
    table.import_statement(&ctx, signed(&pair(1), Statement::Candidate(r)));
    table.import_statement(&ctx, signed(&pair(2), Statement::Valid(digest)));
    table.import_statement(&ctx, signed(&pair(2), Statement::Invalid(digest)));
    let first = table.get_misbehavior().get(&pair(2).public()).cloned();
    assert!(matches!(first, Some(Misbehavior::ValidityDoubleVote(_, _, _))));

    // Key 2 guarantees no availability: a second fault, of another kind.
    assert!(table.import_statement(&ctx, signed(&pair(2), Statement::Available(digest))).is_none());
    assert_eq!(table.get_misbehavior().get(&pair(2).public()).cloned(), first);
    assert_eq!(table.get_misbehavior().len(), 1);
}

#[test]
fn statement_from_outside_the_group_is_unauthorized() {
    let ctx = context();
    let mut table = Table::new();
    let r = receipt(1, 1);
    let digest = r.hash();

    // Key 7 checks parachain 2, not 1.
    let proposal = signed(&pair(7), Statement::Candidate(r.clone()));
    assert!(table.import_statement(&ctx, proposal.clone()).is_none());
    assert!(table.get_candidate(&digest).is_none());
    assert_eq!(
        table.get_misbehavior().get(&pair(7).public()),
        Some(&Misbehavior::UnauthorizedStatement(proposal))
    );

    table.import_statement(&ctx, signed(&pair(1), Statement::Candidate(r)));
    // Key 4 guarantees availability, not validity.
    let vote = signed(&pair(4), Statement::Valid(digest));
    assert!(table.import_statement(&ctx, vote.clone()).is_none());
    assert_eq!(
        table.get_misbehavior().get(&pair(4).public()),
        Some(&Misbehavior::UnauthorizedStatement(vote))
    );
    // Key 3 guarantees validity, not availability.
    let available = signed(&pair(3), Statement::Available(digest));
    assert!(table.import_statement(&ctx, available.clone()).is_none());
    assert_eq!(
        table.get_misbehavior().get(&pair(3).public()),
        Some(&Misbehavior::UnauthorizedStatement(available))
    );
    let record = table.get_candidate_data(&digest).unwrap();
    assert_eq!(record.valid_votes(), 1);
    assert_eq!(record.available_votes(), 0);
}

#[test]
fn bad_signature_is_dropped_and_blamed_on_known_senders_only() {
    let ctx = context();
    let mut table = Table::new();
    let r = receipt(1, 1);
    let digest = r.hash();

    let mut forged = signed(&pair(1), Statement::Candidate(r));
    forged.signature = Signature([0; 64]);
    assert!(table.import_statement(&ctx, forged.clone()).is_none());
    assert!(table.get_candidate(&digest).is_none());
    assert_eq!(
        table.get_misbehavior().get(&pair(1).public()),
        Some(&Misbehavior::UnauthorizedStatement(forged))
    );

    let mut stranger = signed(&pair(99), Statement::Valid(digest));
    stranger.signature = Signature([0; 64]);
    assert!(table.import_statement(&ctx, stranger).is_none());
    assert!(table.get_misbehavior().get(&pair(99).public()).is_none());
    assert_eq!(table.get_misbehavior().len(), 1);
}

#[test]
fn signature_for_another_parent_is_refused() {
    let ctx = context();
    let mut table = Table::new();
    let r = receipt(1, 1);
    let digest = r.hash();
    let statement = Statement::Candidate(r);
    let signature = sign_table_statement(&statement, &pair(1), &primitives::Hash([43; 32]));
    let foreign = SignedStatement { statement, signature, sender: pair(1).public() };
    assert!(table.import_statement(&ctx, foreign).is_none());
    assert!(table.get_candidate(&digest).is_none());
}

#[test]
fn second_candidate_in_one_group_is_misbehavior() {
    let ctx = context();
    let mut table = Table::new();
    let first = receipt(1, 1);
    let second = receipt(1, 2);
    let first_signed = signed(&pair(1), Statement::Candidate(first.clone()));
    let second_signed = signed(&pair(1), Statement::Candidate(second.clone()));
    let (first_signature, second_signature) = (first_signed.signature, second_signed.signature);
    assert!(table.import_statement(&ctx, first_signed).is_some());
    assert!(table.import_statement(&ctx, second_signed).is_none());
    assert!(table.get_candidate(&first.hash()).is_some());
    assert!(table.get_candidate(&second.hash()).is_none());
    assert_eq!(
        table.get_misbehavior().get(&pair(1).public()),
        Some(&Misbehavior::MultipleCandidates(
            first.hash(),
            first_signature,
            second,
            second_signature
        ))
    );
}

#[test]
fn two_validators_may_propose_one_candidate() {
    let ctx = context();
    let mut table = Table::new();
    let r = receipt(1, 1);
    let digest = r.hash();
    assert!(table.import_statement(&ctx, signed(&pair(1), Statement::Candidate(r.clone()))).is_some());
    assert!(table.import_statement(&ctx, signed(&pair(2), Statement::Candidate(r))).is_some());
    let record = table.get_candidate_data(&digest).unwrap();
    assert_eq!(record.proposer, pair(1).public());
    assert_eq!(record.valid_votes(), 2);
    assert_eq!(table.get_misbehavior().len(), 0);
}

#[test]
fn votes_on_unknown_digests_wait_for_the_proposal() {
    let ctx = context();
    let mut table = Table::new();
    let r = receipt(1, 1);
    let digest = r.hash();
    let other = primitives::Hash([77; 32]);

    assert!(table.import_statement(&ctx, signed(&pair(2), Statement::Valid(digest))).is_none());
    assert!(table.import_statement(&ctx, signed(&pair(2), Statement::Valid(digest))).is_none());
    assert!(table.import_statement(&ctx, signed(&pair(4), Statement::Available(digest))).is_none());
    assert!(table.import_statement(&ctx, signed(&pair(5), Statement::Available(other))).is_none());
    // Key 6 guarantees availability only: at fault once the group is known.
    let stray = signed(&pair(6), Statement::Invalid(digest));
    assert!(table.import_statement(&ctx, stray.clone()).is_none());
    assert!(table.get_candidate(&digest).is_none());
    assert_eq!(table.get_misbehavior().len(), 0);

    let summary = table.import_statement(&ctx, signed(&pair(1), Statement::Candidate(r)));
    assert_eq!(summary, Some(Summary { candidate: digest, group_id: ParaId(1) }));
    let record = table.get_candidate_data(&digest).unwrap();
    assert_eq!(record.valid_votes(), 2);
    assert_eq!(record.invalid_votes(), 0);
    assert_eq!(record.available_votes(), 1);
    assert_eq!(
        table.get_misbehavior().get(&pair(6).public()),
        Some(&Misbehavior::UnauthorizedStatement(stray))
    );
    assert!(table.get_candidate(&other).is_none());
}

#[test]
fn proposed_candidates_come_by_group_then_digest() {
    let authorities: Vec<AuthorityId> = (1..=2).map(|tag| pair(tag).public()).collect();
    let roster = DutyRoster {
        validator_duty: vec![Chain::Parachain(ParaId(2)), Chain::Parachain(ParaId(1))],
        guarantor_duty: vec![Chain::Relay, Chain::Relay],
    };
    let ctx = TableContext {
        parent_hash: parent(),
        key: pair(1),
        groups: make_group_info(roster, &authorities).unwrap(),
    };
    let mut table = Table::new();
    let in_two = receipt(2, 1);
    let in_one = receipt(1, 2);
    table.import_statement(&ctx, signed(&pair(1), Statement::Candidate(in_two.clone())));
    table.import_statement(&ctx, signed(&pair(2), Statement::Candidate(in_one.clone())));
    // One guarantor of validity and none of availability: one vote is enough.
    assert_eq!(table.proposed_candidates(&ctx), vec![&in_one, &in_two]);
    assert_eq!(table.proposed_digests(&ctx), vec![in_one.hash(), in_two.hash()]);
}

#[test]
fn candidates_of_one_group_come_by_digest() {
    let ctx = context();
    let mut table = Table::new();
    let mut receipts: Vec<CandidateReceipt> = (1..=3).map(|tag| receipt(1, tag)).collect();
    for (i, r) in receipts.iter().enumerate() {
        let key = pair(i as u8 + 1);
        table.import_statement(&ctx, signed(&key, Statement::Candidate(r.clone())));
    }
    for r in receipts.iter() {
        let digest = r.hash();
        for tag in 1..=3u8 {
            table.import_statement(&ctx, signed(&pair(tag), Statement::Valid(digest)));
        }
        table.import_statement(&ctx, signed(&pair(4), Statement::Available(digest)));
        table.import_statement(&ctx, signed(&pair(5), Statement::Available(digest)));
    }
    receipts.sort_by_key(|r| r.hash().0);
    let expected: Vec<&CandidateReceipt> = receipts.iter().collect();
    assert_eq!(table.proposed_candidates(&ctx), expected);
}

#[test]
fn batch_takes_proposals_before_votes() {
    let ctx = context();
    let mut table = Table::new();
    let first = receipt(1, 1);
    let second = receipt(1, 2);
    let vote = signed(&pair(2), Statement::Valid(first.hash()));
    let first_signed = signed(&pair(1), Statement::Candidate(first.clone()));
    let second_signed = signed(&pair(3), Statement::Candidate(second));
    table.import_statement(&ctx, first_signed.clone());
    table.import_statement(&ctx, vote.clone());
    table.import_statement(&ctx, second_signed.clone());

    let mut batch = StatementBatch::new(usize::MAX);
    table.fill_batch(&mut batch);
    assert_eq!(batch.statements, vec![first_signed, second_signed, vote]);

    let mut again = StatementBatch::new(usize::MAX);
    table.fill_batch(&mut again);
    assert!(again.statements.is_empty());
    assert_eq!(again.remaining, usize::MAX);
}

#[test]
fn batch_stops_at_the_first_statement_that_does_not_fit() {
    let ctx = context();
    let mut table = Table::new();
    let r = receipt(1, 1);
    let digest = r.hash();
    let proposal = signed(&pair(1), Statement::Candidate(r.clone()));
    let vote = signed(&pair(2), Statement::Valid(digest));
    let available = signed(&pair(4), Statement::Available(digest));
    table.import_statement(&ctx, proposal.clone());
    table.import_statement(&ctx, vote.clone());
    table.import_statement(&ctx, available.clone());

    let proposal_size = Statement::Candidate(r).encode().len() + 96;
    let vote_size = 33 + 96;

    // Too small for the proposal: nothing goes, not even the votes.
    let mut batch = StatementBatch::new(proposal_size - 1);
    table.fill_batch(&mut batch);
    assert!(batch.statements.is_empty());
    assert_eq!(batch.remaining, proposal_size - 1);

    // Room for the proposal and one vote.
    let mut batch = StatementBatch::new(proposal_size + vote_size + vote_size - 1);
    table.fill_batch(&mut batch);
    assert_eq!(batch.statements, vec![proposal, vote]);
    assert_eq!(batch.remaining, vote_size - 1);

    let mut batch = StatementBatch::new(vote_size);
    table.fill_batch(&mut batch);
    assert_eq!(batch.statements, vec![available]);
    assert_eq!(batch.remaining, 0);
}

#[test]
fn batch_push_counts_statement_sender_and_signature() {
    let statement = signed(&pair(1), Statement::Valid(primitives::Hash([1; 32])));
    let mut batch = StatementBatch::new(129);
    assert!(batch.push(statement.clone()));
    assert_eq!(batch.remaining, 0);
    assert!(!batch.push(statement.clone()));
    let mut small = StatementBatch::new(128);
    assert!(!small.push(statement));
    assert_eq!(small.remaining, 128);
}

#[test]
fn import_resolved_takes_digest_and_verdict_as_given() {
    let ctx = context();
    let mut table = Table::new();
    let r = receipt(1, 1);
    let given = primitives::Hash([5; 32]);
    let statement = SignedStatement {
        statement: Statement::Candidate(r.clone()),
        signature: Signature([0; 64]),
        sender: pair(1).public(),
    };
    let summary = table.import_resolved(&ctx, statement.clone(), given, true);
    assert_eq!(summary, Some(Summary { candidate: given, group_id: ParaId(1) }));
    assert_eq!(table.get_candidate(&given), Some(&r));
    assert!(table.import_resolved(&ctx, statement.clone(), given, true).is_none());

    let mut other = Table::new();
    assert!(other.import_resolved(&ctx, statement, given, false).is_none());
    assert!(other.get_candidate(&given).is_none());
    assert_eq!(other.get_misbehavior().len(), 1);
}

#[test]
fn context_answers_for_unknown_groups() {
    let ctx = context();
    let one = pair(1).public();
    let four = pair(4).public();
    assert!(ctx.is_member_of(&one, &ParaId(1)));
    assert!(!ctx.is_member_of(&one, &ParaId(2)));
    assert!(!ctx.is_member_of(&one, &ParaId(3)));
    assert!(ctx.is_availability_guarantor_of(&four, &ParaId(1)));
    assert!(!ctx.is_availability_guarantor_of(&one, &ParaId(1)));
    assert!(!ctx.is_availability_guarantor_of(&four, &ParaId(3)));
    assert_eq!(ctx.requisite_votes(&ParaId(1)), (2, 2));
    assert_eq!(ctx.requisite_votes(&ParaId(2)), (1, 1));
    assert_eq!(ctx.requisite_votes(&ParaId(3)), (usize::MAX, usize::MAX));
    assert!(ctx.is_known(&one));
    assert!(ctx.is_known(&four));
    assert!(!ctx.is_known(&pair(99).public()));
    assert_eq!(ctx.local_id(), one);
}

#[test]
fn context_signs_as_the_local_validator() {
    let ctx = context();
    let statement = Statement::Invalid(primitives::Hash([3; 32]));
    let signed = ctx.sign_statement(statement.clone());
    assert_eq!(signed.statement, statement);
    assert_eq!(signed.sender, pair(1).public());
    assert_eq!(signed.signature, sign_table_statement(&statement, &pair(1), &parent()));
    assert!(check_statement_signature(&signed, &parent()));
}
