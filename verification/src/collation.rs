//! The candidate of the local validator's own parachain.

use vstd::prelude::*;
use crate::context::{ContextView, TableContext};
use crate::primitives::{BlockData, CandidateReceipt, Extrinsic, ParaId};

verus! {

/// A candidate as a collator hands it over: the receipt and the data.
#[derive(Debug)]
pub struct Collation {
    /// The receipt of the candidate.
    pub receipt: CandidateReceipt,
    /// The block data of the candidate.
    pub block_data: BlockData,
    /// The extrinsic data of the candidate.
    pub extrinsic: Extrinsic,
}

/// Whether the local validator guarantees validity in `group`.
pub open spec fn local_duty(context: ContextView, group: ParaId) -> bool {
    context.is_member_of(context.local_id, group)
}

/// Finds a parachain whose candidates the local validator checks, so that
/// a collation can be asked for. There is none where the local validator
/// is on no parachain.
pub fn local_parachain(context: &TableContext) -> (found: Option<ParaId>)
    ensures
        match found {
            Some(group) => local_duty(context@, group),
            None => forall|group: ParaId| !local_duty(context@, group),
        },
{
    let local_id = context.local_id();
    let count = context.groups.len();
    let ghost keys = context.groups.key_seq();
    let mut i: usize = 0;
    while i < count
        invariant
            i <= count,
            count == keys.len(),
            keys == context.groups.key_seq(),
            keys.to_set() == context.groups@.dom(),
            local_id == context@.local_id,
            forall|j: int| 0 <= j < i ==> !local_duty(context@, #[trigger] keys[j]),
        decreases count - i,
    {
        let group = context.groups.key_at(i);
        if context.is_member_of(&local_id, &group) {
            return Some(group);
        }
        i += 1;
    }
    proof {
        assert forall|group: ParaId| !local_duty(context@, group) by {
            if local_duty(context@, group) {
                assert(keys.to_set().contains(group));
                let j = keys.index_of(group);
                assert(keys[j] == group);
            }
        }
    }
    None
}

} // verus!
