//! Statements about candidates, and how they are signed.
//!
//! A statement is signed together with the hash of the relay-chain block it
//! builds on, so a signature made for one parent proves nothing for another.

use vstd::prelude::*;
use crate::codec::{candidate_digest, encode_receipt, put_bytes, put_receipt};
use crate::crypto::{ed25519_signature, ed25519_verifies, verify, Pair};
use crate::primitives::{self, AuthorityId, CandidateReceipt, CandidateReceiptView, Signature};

verus! {

/// What a validator can say about a candidate.
#[derive(Debug, PartialEq, Eq)]
pub enum Statement {
    /// Proposes the candidate with this receipt.
    Candidate(CandidateReceipt),
    /// The candidate with this digest is valid.
    Valid(primitives::Hash),
    /// The candidate with this digest is invalid.
    Invalid(primitives::Hash),
    /// The data of the candidate with this digest is available.
    Available(primitives::Hash),
}

/// The contents of a [`Statement`].
pub enum StatementView {
    Candidate(CandidateReceiptView),
    Valid(primitives::Hash),
    Invalid(primitives::Hash),
    Available(primitives::Hash),
}

impl StatementView {
    /// The digest of the candidate that the statement is about.
    pub open spec fn digest(self) -> primitives::Hash {
        match self {
            StatementView::Candidate(receipt) => candidate_digest(receipt),
            StatementView::Valid(digest) => digest,
            StatementView::Invalid(digest) => digest,
            StatementView::Available(digest) => digest,
        }
    }

    /// The byte that opens the wire form of the statement.
    pub open spec fn tag(self) -> u8 {
        match self {
            StatementView::Candidate(_) => 1,
            StatementView::Valid(_) => 2,
            StatementView::Invalid(_) => 3,
            StatementView::Available(_) => 4,
        }
    }
}

impl View for Statement {
    type V = StatementView;

    open spec fn view(&self) -> StatementView {
        match self {
            Statement::Candidate(receipt) => StatementView::Candidate(receipt@),
            Statement::Valid(digest) => StatementView::Valid(*digest),
            Statement::Invalid(digest) => StatementView::Invalid(*digest),
            Statement::Available(digest) => StatementView::Available(*digest),
        }
    }
}

impl Clone for Statement {
    fn clone(&self) -> (copy: Self)
        ensures
            copy@ == self@,
    {
        match self {
            Statement::Candidate(receipt) => Statement::Candidate(receipt.clone()),
            Statement::Valid(digest) => Statement::Valid(*digest),
            Statement::Invalid(digest) => Statement::Invalid(*digest),
            Statement::Available(digest) => Statement::Available(*digest),
        }
    }
}

/// A statement with its sender and the sender's signature.
#[derive(Debug, PartialEq, Eq)]
pub struct SignedStatement {
    /// The statement.
    pub statement: Statement,
    /// The sender's signature on the statement and the parent hash.
    pub signature: Signature,
    /// The validator that made the statement.
    pub sender: AuthorityId,
}

/// The contents of a [`SignedStatement`].
pub struct SignedStatementView {
    pub statement: StatementView,
    pub signature: Signature,
    pub sender: AuthorityId,
}

impl View for SignedStatement {
    type V = SignedStatementView;

    open spec fn view(&self) -> SignedStatementView {
        SignedStatementView {
            statement: self.statement@,
            signature: self.signature,
            sender: self.sender,
        }
    }
}

impl Clone for SignedStatement {
    fn clone(&self) -> (copy: Self)
        ensures
            copy@ == self@,
    {
        SignedStatement {
            statement: self.statement.clone(),
            signature: self.signature,
            sender: self.sender,
        }
    }
}

/// The wire form of a statement: its tag, then the receipt or the digest.
pub open spec fn encode_statement(statement: StatementView) -> Seq<u8> {
    match statement {
        StatementView::Candidate(receipt) => seq![1u8] + encode_receipt(receipt),
        StatementView::Valid(digest) => seq![2u8] + digest@,
        StatementView::Invalid(digest) => seq![3u8] + digest@,
        StatementView::Available(digest) => seq![4u8] + digest@,
    }
}

/// The message that is signed for a statement: its wire form, then the hash
/// of the parent block.
pub open spec fn statement_payload(statement: StatementView, parent_hash: primitives::Hash) -> Seq<
    u8,
> {
    encode_statement(statement) + parent_hash@
}

/// Whether the signature of `signed` is accepted for the given parent.
pub open spec fn signature_valid(signed: SignedStatementView, parent_hash: primitives::Hash) -> bool {
    ed25519_verifies(
        signed.sender@,
        statement_payload(signed.statement, parent_hash),
        signed.signature@,
    )
}

/// The wire form of every statement is at least one byte long, and the
/// payload ends in the parent hash.
pub proof fn lemma_payload_ends_in_parent(statement: StatementView, parent_hash: primitives::Hash)
    ensures
        statement_payload(statement, parent_hash).len() == encode_statement(statement).len() + 32,
        statement_payload(statement, parent_hash).skip(encode_statement(statement).len() as int)
            == parent_hash@,
{
    assert(statement_payload(statement, parent_hash).skip(encode_statement(statement).len() as int)
        =~= parent_hash@);
}

/// Payloads of one statement for two parents differ: a signature is bound to
/// one parent.
pub proof fn lemma_payload_binds_parent(
    statement: StatementView,
    parent: primitives::Hash,
    other: primitives::Hash,
)
    requires
        parent != other,
    ensures
        statement_payload(statement, parent) != statement_payload(statement, other),
{
    lemma_payload_ends_in_parent(statement, parent);
    lemma_payload_ends_in_parent(statement, other);
    if parent@ == other@ {
        assert(parent.0 =~= other.0);
    }
}

impl Statement {
    /// The digest of the candidate that the statement is about.
    pub fn digest(&self) -> (digest: primitives::Hash)
        ensures
            digest == self@.digest(),
    {
        match self {
            Statement::Candidate(receipt) => receipt.hash(),
            Statement::Valid(digest) => *digest,
            Statement::Invalid(digest) => *digest,
            Statement::Available(digest) => *digest,
        }
    }

    /// The wire form of the statement.
    pub fn encode(&self) -> (bytes: Vec<u8>)
        ensures
            bytes@ == encode_statement(self@),
    {
        let mut bytes: Vec<u8> = Vec::new();
        match self {
            Statement::Candidate(receipt) => {
                bytes.push(1u8);
                put_receipt(&mut bytes, receipt);
            },
            Statement::Valid(digest) => {
                bytes.push(2u8);
                put_bytes(&mut bytes, &digest.0);
            },
            Statement::Invalid(digest) => {
                bytes.push(3u8);
                put_bytes(&mut bytes, &digest.0);
            },
            Statement::Available(digest) => {
                bytes.push(4u8);
                put_bytes(&mut bytes, &digest.0);
            },
        }
        assert(bytes@ =~= encode_statement(self@));
        bytes
    }

    /// The message that is signed for the statement under the given parent.
    pub fn payload(&self, parent_hash: &primitives::Hash) -> (bytes: Vec<u8>)
        ensures
            bytes@ == statement_payload(self@, *parent_hash),
    {
        let mut bytes = self.encode();
        put_bytes(&mut bytes, &parent_hash.0);
        bytes
    }
}

/// Signs a statement against a parent hash. The message signed is the wire
/// form of the statement followed by the parent hash; the key's own public
/// key verifies the result against that parent.
pub fn sign_table_statement(statement: &Statement, key: &Pair, parent_hash: &primitives::Hash) -> (signature:
    Signature)
    ensures
        signature@ == ed25519_signature(key.seed(), statement_payload(statement@, *parent_hash)),
        signature_valid(
            (SignedStatementView {
                statement: statement@,
                signature: signature,
                sender: key.public_id(),
            }),
            *parent_hash,
        ),
{
    let payload = statement.payload(parent_hash);
    key.sign(payload.as_slice())
}

/// Checks the signature of a statement against a parent hash.
pub fn check_statement_signature(signed: &SignedStatement, parent_hash: &primitives::Hash) -> (valid:
    bool)
    ensures
        valid == signature_valid(signed@, *parent_hash),
{
    let payload = signed.statement.payload(parent_hash);
    verify(&signed.sender, payload.as_slice(), &signed.signature)
}

} // verus!
