//! Identifiers and payloads shared by every part of the crate.

use vstd::prelude::*;
use vstd::std_specs::cmp::PartialEqSpecImpl;

verus! {

/// Seconds since the Unix epoch.
pub type Timestamp = u64;

/// Height of a relay-chain block.
pub type BlockNumber = u64;

/// Compares two byte strings of the same fixed length.
pub fn bytes_eq<const N: usize>(a: &[u8; N], b: &[u8; N]) -> (same: bool)
    ensures
        same == (*a == *b),
{
    let mut i: usize = 0;
    while i < N
        invariant
            i <= N,
            forall|j: int| 0 <= j < i ==> a[j] == b[j],
        decreases N - i,
    {
        if a[i] != b[i] {
            return false;
        }
        i += 1;
    }
    assert(*a =~= *b);
    true
}

/// The number that a byte string spells when read as big-endian digits.
/// Byte strings of one length are ordered by it as they are ordered
/// lexicographically.
pub open spec fn be_value(s: Seq<u8>) -> nat
    decreases s.len(),
{
    if s.len() == 0 {
        0
    } else {
        be_value(s.drop_last()) * 256 + s.last() as nat
    }
}

/// Two byte strings of one length that agree before position `i` and differ
/// at `i` are ordered as their bytes at `i` are.
pub proof fn lemma_be_value_first_difference(a: Seq<u8>, b: Seq<u8>, i: int)
    requires
        a.len() == b.len(),
        0 <= i < a.len(),
        forall|j: int| 0 <= j < i ==> a[j] == b[j],
        a[i] < b[i],
    ensures
        be_value(a) < be_value(b),
    decreases a.len(),
{
    if i == a.len() - 1 {
        assert(a.drop_last() =~= b.drop_last());
    } else {
        lemma_be_value_first_difference(a.drop_last(), b.drop_last(), i);
    }
}

/// Byte strings of one length that spell the same number are equal.
pub proof fn lemma_be_value_injective(a: Seq<u8>, b: Seq<u8>)
    requires
        a.len() == b.len(),
        be_value(a) == be_value(b),
    ensures
        a == b,
    decreases a.len(),
{
    if a.len() > 0 {
        lemma_be_value_injective(a.drop_last(), b.drop_last());
        assert(a =~= a.drop_last().push(a.last()));
        assert(b =~= b.drop_last().push(b.last()));
    } else {
        assert(a =~= b);
    }
}

/// Tells whether `a` comes before `b` in byte order.
pub fn bytes32_lt(a: &[u8; 32], b: &[u8; 32]) -> (before: bool)
    ensures
        before == (be_value(a@) < be_value(b@)),
{
    let mut i: usize = 0;
    while i < 32
        invariant
            i <= 32,
            forall|j: int| 0 <= j < i ==> a[j] == b[j],
        decreases 32 - i,
    {
        if a[i] < b[i] {
            proof {
                lemma_be_value_first_difference(a@, b@, i as int);
            }
            return true;
        }
        if a[i] > b[i] {
            proof {
                lemma_be_value_first_difference(b@, a@, i as int);
            }
            return false;
        }
        i += 1;
    }
    assert(a@ =~= b@);
    false
}

/// A 32-byte content hash. The hash of a candidate receipt is the candidate's
/// digest.
#[derive(Clone, Copy, Debug)]
pub struct Hash(pub [u8; 32]);

impl View for Hash {
    type V = Seq<u8>;

    open spec fn view(&self) -> Seq<u8> {
        self.0@
    }
}

impl PartialEq for Hash {
    fn eq(&self, other: &Self) -> (same: bool) {
        let same = bytes_eq(&self.0, &other.0);
        assert(same == (*self == *other));
        same
    }
}

impl PartialEqSpecImpl for Hash {
    open spec fn obeys_eq_spec() -> bool {
        true
    }

    open spec fn eq_spec(&self, other: &Self) -> bool {
        *self == *other
    }
}

impl Eq for Hash {}

impl Hash {
    /// The place of this hash among all hashes in byte order.
    pub open spec fn rank(self) -> nat {
        be_value(self@)
    }

    /// Tells whether this hash comes before `other` in byte order.
    pub fn precedes(&self, other: &Hash) -> (before: bool)
        ensures
            before == (self.rank() < other.rank()),
    {
        bytes32_lt(&self.0, &other.0)
    }

    /// Hashes of one rank are one hash.
    pub proof fn lemma_rank_injective(a: Hash, b: Hash)
        requires
            a.rank() == b.rank(),
        ensures
            a == b,
    {
        lemma_be_value_injective(a@, b@);
        assert(a.0 =~= b.0);
    }
}

/// The 32-byte public key that identifies a validator.
#[derive(Clone, Copy, Debug)]
pub struct AuthorityId(pub [u8; 32]);

impl View for AuthorityId {
    type V = Seq<u8>;

    open spec fn view(&self) -> Seq<u8> {
        self.0@
    }
}

impl PartialEq for AuthorityId {
    fn eq(&self, other: &Self) -> (same: bool) {
        let same = bytes_eq(&self.0, &other.0);
        assert(same == (*self == *other));
        same
    }
}

impl PartialEqSpecImpl for AuthorityId {
    open spec fn obeys_eq_spec() -> bool {
        true
    }

    open spec fn eq_spec(&self, other: &Self) -> bool {
        *self == *other
    }
}

impl Eq for AuthorityId {}

/// A detached 64-byte Ed25519 signature.
#[derive(Clone, Copy, Debug)]
pub struct Signature(pub [u8; 64]);

impl View for Signature {
    type V = Seq<u8>;

    open spec fn view(&self) -> Seq<u8> {
        self.0@
    }
}

impl PartialEq for Signature {
    fn eq(&self, other: &Self) -> (same: bool) {
        let same = bytes_eq(&self.0, &other.0);
        assert(same == (*self == *other));
        same
    }
}

impl PartialEqSpecImpl for Signature {
    open spec fn obeys_eq_spec() -> bool {
        true
    }

    open spec fn eq_spec(&self, other: &Self) -> bool {
        *self == *other
    }
}

impl Eq for Signature {}

/// Identifier of a parachain.
#[derive(Clone, Copy, Debug, PartialEq, Eq, Structural, PartialOrd, Ord)]
pub struct ParaId(pub u32);

/// The chain a validator is assigned to for one duty.
#[derive(Clone, Copy, Debug, PartialEq, Eq, Structural)]
pub enum Chain {
    /// The relay chain itself.
    Relay,
    /// The parachain with the given identifier.
    Parachain(ParaId),
}

/// The duties of every validator for one slot. Position `i` of either list
/// belongs to the validator at position `i` of the authority list.
#[derive(Debug, PartialEq, Eq)]
pub struct DutyRoster {
    /// The chain each validator checks candidates of.
    pub validator_duty: Vec<Chain>,
    /// The chain each validator keeps candidate data available for.
    pub guarantor_duty: Vec<Chain>,
}

impl Clone for DutyRoster {
    fn clone(&self) -> (copy: Self)
        ensures
            copy.validator_duty@ == self.validator_duty@,
            copy.guarantor_duty@ == self.guarantor_duty@,
    {
        DutyRoster {
            validator_duty: copy_vec(&self.validator_duty),
            guarantor_duty: copy_vec(&self.guarantor_duty),
        }
    }
}

/// The body of a parachain block.
#[derive(Debug, PartialEq, Eq)]
pub struct BlockData(pub Vec<u8>);

impl Clone for BlockData {
    fn clone(&self) -> (copy: Self)
        ensures
            copy@ == self@,
    {
        BlockData(copy_vec(&self.0))
    }
}

impl View for BlockData {
    type V = Seq<u8>;

    open spec fn view(&self) -> Seq<u8> {
        self.0@
    }
}

/// The outgoing messages of a parachain block.
#[derive(Debug, PartialEq, Eq)]
pub struct Extrinsic(pub Vec<u8>);

impl Clone for Extrinsic {
    fn clone(&self) -> (copy: Self)
        ensures
            copy@ == self@,
    {
        Extrinsic(copy_vec(&self.0))
    }
}

impl View for Extrinsic {
    type V = Seq<u8>;

    open spec fn view(&self) -> Seq<u8> {
        self.0@
    }
}

/// Copies a vector of plain values.
pub fn copy_vec<T: Copy>(items: &Vec<T>) -> (copy: Vec<T>)
    ensures
        copy@ == items@,
{
    let mut copy: Vec<T> = Vec::new();
    let mut i: usize = 0;
    while i < items.len()
        invariant
            i <= items.len(),
            copy@ == items@.take(i as int),
        decreases items.len() - i,
    {
        copy.push(items[i]);
        assert(items@.take(i + 1) =~= items@.take(i as int).push(items@[i as int]));
        i += 1;
    }
    assert(items@.take(items.len() as int) =~= items@);
    copy
}

/// What a parachain hands to the relay chain about one of its blocks.
#[derive(Debug, PartialEq, Eq)]
pub struct CandidateReceipt {
    /// The parachain the candidate belongs to.
    pub parachain_index: ParaId,
    /// The collator that produced the candidate.
    pub collator: AuthorityId,
    /// The collator's signature on the candidate.
    pub signature: Signature,
    /// The head of the parachain after the candidate.
    pub head_data: Vec<u8>,
    /// Balances moved to the relay chain, by account.
    pub balance_uploads: Vec<(AuthorityId, u64)>,
    /// Roots of the message queues towards other parachains.
    pub egress_queue_roots: Vec<(ParaId, Hash)>,
    /// Fees paid by the candidate.
    pub fees: u64,
}

/// The contents of a [`CandidateReceipt`].
pub struct CandidateReceiptView {
    pub parachain_index: ParaId,
    pub collator: AuthorityId,
    pub signature: Signature,
    pub head_data: Seq<u8>,
    pub balance_uploads: Seq<(AuthorityId, u64)>,
    pub egress_queue_roots: Seq<(ParaId, Hash)>,
    pub fees: u64,
}

impl View for CandidateReceipt {
    type V = CandidateReceiptView;

    open spec fn view(&self) -> CandidateReceiptView {
        CandidateReceiptView {
            parachain_index: self.parachain_index,
            collator: self.collator,
            signature: self.signature,
            head_data: self.head_data@,
            balance_uploads: self.balance_uploads@,
            egress_queue_roots: self.egress_queue_roots@,
            fees: self.fees,
        }
    }
}

impl Clone for CandidateReceipt {
    fn clone(&self) -> (copy: Self)
        ensures
            copy@ == self@,
    {
        CandidateReceipt {
            parachain_index: self.parachain_index,
            collator: self.collator,
            signature: self.signature,
            head_data: copy_vec(&self.head_data),
            balance_uploads: copy_vec(&self.balance_uploads),
            egress_queue_roots: copy_vec(&self.egress_queue_roots),
            fees: self.fees,
        }
    }
}

} // verus!
