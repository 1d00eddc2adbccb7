//! The wire form of integers and candidate receipts.
//!
//! Integers are written little-endian at a fixed width. A list is written as
//! its length in eight bytes, then its items in order.

use vstd::prelude::*;
use crate::crypto::{blake2_256, hash_of};
use crate::primitives::{self, AuthorityId, CandidateReceipt, CandidateReceiptView, ParaId};

verus! {

/// The `width` low bytes of `x`, least significant first.
pub open spec fn le_bytes(x: nat, width: nat) -> Seq<u8>
    decreases width,
{
    if width == 0 {
        Seq::empty()
    } else {
        seq![(x % 256) as u8] + le_bytes(x / 256, (width - 1) as nat)
    }
}

/// `le_bytes` yields as many bytes as asked for.
pub proof fn lemma_le_bytes_len(x: nat, width: nat)
    ensures
        le_bytes(x, width).len() == width,
    decreases width,
{
    if width > 0 {
        lemma_le_bytes_len(x / 256, (width - 1) as nat);
    }
}

/// Writing one more byte extends what was written before.
proof fn lemma_le_bytes_step(x: nat, width: nat)
    ensures
        le_bytes(x, width + 1) == le_bytes(x, width).push((le_shift(x, width) % 256) as u8),
    decreases width,
{
    if width == 0 {
        assert(le_bytes(x / 256, 0) =~= Seq::<u8>::empty());
        assert(le_bytes(x, 1) =~= Seq::<u8>::empty().push((x % 256) as u8));
        assert(le_bytes(x, 0) =~= Seq::<u8>::empty());
    } else {
        lemma_le_bytes_step(x / 256, (width - 1) as nat);
        assert(le_bytes(x, width + 1) =~= le_bytes(x, width).push(
            (le_shift(x, width) % 256) as u8,
        ));
    }
}

/// `x` with its `count` low bytes dropped.
spec fn le_shift(x: nat, count: nat) -> nat
    decreases count,
{
    if count == 0 {
        x
    } else {
        le_shift(x / 256, (count - 1) as nat)
    }
}

proof fn lemma_le_shift_step(x: nat, count: nat)
    ensures
        le_shift(x, count + 1) == le_shift(x, count) / 256,
    decreases count,
{
    reveal_with_fuel(le_shift, 2);
    if count > 0 {
        lemma_le_shift_step(x / 256, (count - 1) as nat);
        assert(le_shift(x, count + 1) == le_shift(x / 256, count));
    }
}

/// Appends `bytes` to `out`.
pub fn put_bytes(out: &mut Vec<u8>, bytes: &[u8])
    ensures
        final(out)@ == old(out)@ + bytes@,
{
    let mut i: usize = 0;
    while i < bytes.len()
        invariant
            i <= bytes.len(),
            out@ == old(out)@ + bytes@.take(i as int),
        decreases bytes.len() - i,
    {
        out.push(bytes[i]);
        assert(bytes@.take(i + 1) =~= bytes@.take(i as int).push(bytes@[i as int]));
        i += 1;
    }
    assert(bytes@.take(bytes.len() as int) =~= bytes@);
}

/// Appends the `width` low bytes of `x` to `out`, least significant first.
pub fn put_le(out: &mut Vec<u8>, x: u64, width: usize)
    ensures
        final(out)@ == old(out)@ + le_bytes(x as nat, width as nat),
{
    let mut rest: u64 = x;
    let mut i: usize = 0;
    assert(le_bytes(x as nat, 0) =~= Seq::<u8>::empty());
    while i < width
        invariant
            i <= width,
            rest == le_shift(x as nat, i as nat),
            out@ == old(out)@ + le_bytes(x as nat, i as nat),
        decreases width - i,
    {
        proof {
            lemma_le_bytes_step(x as nat, i as nat);
            lemma_le_shift_step(x as nat, i as nat);
        }
        out.push((rest % 256) as u8);
        rest = rest / 256;
        i += 1;
    }
}

/// The wire form of a byte string: its length, then its bytes.
pub open spec fn encode_bytes(bytes: Seq<u8>) -> Seq<u8> {
    le_bytes(bytes.len(), 8) + bytes
}

/// The wire form of one balance upload: the account, then the amount.
pub open spec fn encode_upload(upload: (AuthorityId, u64)) -> Seq<u8> {
    upload.0@ + le_bytes(upload.1 as nat, 8)
}

/// The wire forms of the given balance uploads, one after the other.
pub open spec fn encode_upload_items(uploads: Seq<(AuthorityId, u64)>) -> Seq<u8>
    decreases uploads.len(),
{
    if uploads.len() == 0 {
        Seq::empty()
    } else {
        encode_upload_items(uploads.drop_last()) + encode_upload(uploads.last())
    }
}

/// The wire form of one egress queue root: the parachain, then the root.
pub open spec fn encode_root(root: (ParaId, primitives::Hash)) -> Seq<u8> {
    le_bytes(root.0.0 as nat, 4) + root.1@
}

/// The wire forms of the given egress queue roots, one after the other.
pub open spec fn encode_root_items(roots: Seq<(ParaId, primitives::Hash)>) -> Seq<u8>
    decreases roots.len(),
{
    if roots.len() == 0 {
        Seq::empty()
    } else {
        encode_root_items(roots.drop_last()) + encode_root(roots.last())
    }
}

/// The wire form of a candidate receipt: its fields in the order of their
/// declaration.
pub open spec fn encode_receipt(receipt: CandidateReceiptView) -> Seq<u8> {
    le_bytes(receipt.parachain_index.0 as nat, 4) + receipt.collator@ + receipt.signature@
        + encode_bytes(receipt.head_data) + le_bytes(receipt.balance_uploads.len(), 8)
        + encode_upload_items(receipt.balance_uploads) + le_bytes(
        receipt.egress_queue_roots.len(),
        8,
    ) + encode_root_items(receipt.egress_queue_roots) + le_bytes(receipt.fees as nat, 8)
}

/// The digest of a candidate: the hash of its receipt's wire form.
pub open spec fn receipt_digest(receipt: CandidateReceiptView) -> Seq<u8> {
    blake2_256(encode_receipt(receipt))
}

/// The digest of a candidate as a hash value.
pub open spec fn candidate_digest(receipt: CandidateReceiptView) -> primitives::Hash {
    choose|digest: primitives::Hash| digest@ == receipt_digest(receipt)
}

/// Appends the wire form of `receipt` to `out`.
pub fn put_receipt(out: &mut Vec<u8>, receipt: &CandidateReceipt)
    ensures
        final(out)@ == old(out)@ + encode_receipt(receipt@),
{
    put_le(out, receipt.parachain_index.0 as u64, 4);
    put_bytes(out, &receipt.collator.0);
    put_bytes(out, &receipt.signature.0);
    put_le(out, receipt.head_data.len() as u64, 8);
    put_bytes(out, receipt.head_data.as_slice());
    put_le(out, receipt.balance_uploads.len() as u64, 8);
    let ghost before_uploads = out@;
    let mut i: usize = 0;
    while i < receipt.balance_uploads.len()
        invariant
            i <= receipt.balance_uploads.len(),
            out@ == before_uploads + encode_upload_items(receipt.balance_uploads@.take(i as int)),
        decreases receipt.balance_uploads.len() - i,
    {
        let upload = receipt.balance_uploads[i];
        assert(receipt.balance_uploads@.take(i + 1).drop_last() =~= receipt.balance_uploads@.take(
            i as int,
        ));
        put_bytes(out, &upload.0.0);
        put_le(out, upload.1, 8);
        i += 1;
    }
    assert(receipt.balance_uploads@.take(receipt.balance_uploads.len() as int)
        =~= receipt.balance_uploads@);
    put_le(out, receipt.egress_queue_roots.len() as u64, 8);
    let ghost before_roots = out@;
    let mut j: usize = 0;
    while j < receipt.egress_queue_roots.len()
        invariant
            j <= receipt.egress_queue_roots.len(),
            out@ == before_roots + encode_root_items(receipt.egress_queue_roots@.take(j as int)),
        decreases receipt.egress_queue_roots.len() - j,
    {
        let root = receipt.egress_queue_roots[j];
        assert(receipt.egress_queue_roots@.take(j + 1).drop_last()
            =~= receipt.egress_queue_roots@.take(j as int));
        put_le(out, root.0.0 as u64, 4);
        put_bytes(out, &root.1.0);
        j += 1;
    }
    assert(receipt.egress_queue_roots@.take(receipt.egress_queue_roots.len() as int)
        =~= receipt.egress_queue_roots@);
    put_le(out, receipt.fees, 8);
}

impl CandidateReceipt {
    /// The wire form of the receipt.
    pub fn encode(&self) -> (bytes: Vec<u8>)
        ensures
            bytes@ == encode_receipt(self@),
    {
        let mut bytes: Vec<u8> = Vec::new();
        put_receipt(&mut bytes, self);
        bytes
    }

    /// The digest of the candidate.
    pub fn hash(&self) -> (digest: primitives::Hash)
        ensures
            digest@ == receipt_digest(self@),
            digest == candidate_digest(self@),
    {
        let bytes = self.encode();
        let digest = hash_of(bytes.as_slice());
        assert(candidate_digest(self@).0 =~= digest.0);
        digest
    }
}

} // verus!
