//! The fixed facts of one slot: the parent block, the local key, the groups.

use vstd::prelude::*;
use crate::crypto::{ed25519_signature, Pair};
use crate::group_info::{groups_view, GroupInfoView, Groups};
use crate::primitives::{self, AuthorityId, ParaId, Signature};
use crate::statement::{
    sign_table_statement, signature_valid, statement_payload, SignedStatement,
    SignedStatementView, Statement, StatementView,
};

verus! {

/// What a statement table needs to know about the slot it serves.
pub struct TableContext {
    /// Hash of the relay-chain block that the slot builds on.
    pub parent_hash: primitives::Hash,
    /// The key that local statements are signed with.
    pub key: Pair,
    /// The groups of the slot, by parachain.
    pub groups: Groups,
}

/// The contents of a [`TableContext`].
pub struct ContextView {
    pub parent_hash: primitives::Hash,
    pub local_id: AuthorityId,
    pub groups: Map<ParaId, GroupInfoView>,
}

impl ContextView {
    /// Whether `authority` guarantees validity in `group`. Nobody does in a
    /// group that the slot does not have.
    pub open spec fn is_member_of(self, authority: AuthorityId, group: ParaId) -> bool {
        self.groups.contains_key(group) && self.groups[group].validity_guarantors.contains(
            authority,
        )
    }

    /// Whether `authority` guarantees availability in `group`.
    pub open spec fn is_availability_guarantor_of(self, authority: AuthorityId, group: ParaId) -> bool {
        self.groups.contains_key(group) && self.groups[group].availability_guarantors.contains(
            authority,
        )
    }

    /// Whether `authority` has any duty in any group of the slot.
    pub open spec fn is_known(self, authority: AuthorityId) -> bool {
        exists|group: ParaId|
            #[trigger] self.groups.contains_key(group) && (
            self.groups[group].validity_guarantors.contains(authority)
                || self.groups[group].availability_guarantors.contains(authority))
    }

    /// The votes that a candidate of `group` needs: for validity, then for
    /// availability. A group that the slot does not have needs more votes
    /// than can be counted.
    pub open spec fn requisite_votes(self, group: ParaId) -> (nat, nat) {
        if self.groups.contains_key(group) {
            (self.groups[group].needed_validity, self.groups[group].needed_availability)
        } else {
            (usize::MAX as nat, usize::MAX as nat)
        }
    }
}

impl View for TableContext {
    type V = ContextView;

    open spec fn view(&self) -> ContextView {
        ContextView {
            parent_hash: self.parent_hash,
            local_id: self.key.public_id(),
            groups: groups_view(self.groups@),
        }
    }
}

impl TableContext {
    /// The signature that the local key makes for `statement` in this slot.
    pub open spec fn signature_for(&self, statement: StatementView) -> Signature {
        choose|signature: Signature|
            signature@ == ed25519_signature(
                self.key.seed(),
                statement_payload(statement, self.parent_hash),
            )
    }

    /// The statement as the local validator signs it in this slot.
    pub open spec fn signed(&self, statement: StatementView) -> SignedStatementView {
        SignedStatementView {
            statement: statement,
            signature: self.signature_for(statement),
            sender: self.key.public_id(),
        }
    }

    /// Whether `authority` guarantees validity in `group`.
    pub fn is_member_of(&self, authority: &AuthorityId, group: &ParaId) -> (member: bool)
        ensures
            member == self@.is_member_of(*authority, *group),
    {
        match self.groups.get(group) {
            Some(info) => info.validity_guarantors.contains(authority),
            None => false,
        }
    }

    /// Whether `authority` guarantees availability in `group`.
    pub fn is_availability_guarantor_of(&self, authority: &AuthorityId, group: &ParaId) -> (member:
        bool)
        ensures
            member == self@.is_availability_guarantor_of(*authority, *group),
    {
        match self.groups.get(group) {
            Some(info) => info.availability_guarantors.contains(authority),
            None => false,
        }
    }

    /// Whether `authority` has any duty in any group of the slot.
    pub fn is_known(&self, authority: &AuthorityId) -> (known: bool)
        ensures
            known == self@.is_known(*authority),
    {
        let count = self.groups.len();
        let ghost keys = self.groups.key_seq();
        let mut i: usize = 0;
        while i < count
            invariant
                i <= count,
                count == keys.len(),
                keys == self.groups.key_seq(),
                keys.to_set() == self.groups@.dom(),
                forall|j: int|
                    0 <= j < i ==> !self.groups@[#[trigger] keys[j]]@.validity_guarantors.contains(
                        *authority,
                    ) && !self.groups@[keys[j]]@.availability_guarantors.contains(*authority),
            decreases count - i,
        {
            let info = self.groups.value_at(i);
            if info.validity_guarantors.contains(authority)
                || info.availability_guarantors.contains(authority) {
                assert(self@.groups.contains_key(keys[i as int]));
                return true;
            }
            i += 1;
        }
        proof {
            if self@.is_known(*authority) {
                let group = choose|group: ParaId|
                    #[trigger] self@.groups.contains_key(group) && (
                    self@.groups[group].validity_guarantors.contains(*authority)
                        || self@.groups[group].availability_guarantors.contains(*authority));
                assert(keys.to_set().contains(group));
                let j = keys.index_of(group);
                assert(keys[j] == group);
            }
        }
        false
    }

    /// The votes that a candidate of `group` needs: for validity, then for
    /// availability.
    pub fn requisite_votes(&self, group: &ParaId) -> (needed: (usize, usize))
        ensures
            (needed.0 as nat, needed.1 as nat) == self@.requisite_votes(*group),
    {
        match self.groups.get(group) {
            Some(info) => (info.needed_validity, info.needed_availability),
            None => (usize::MAX, usize::MAX),
        }
    }

    /// The identity of the local validator.
    pub fn local_id(&self) -> (id: AuthorityId)
        ensures
            id == self@.local_id,
    {
        self.key.public()
    }

    /// Signs `statement` as the local validator, for the parent of the slot.
    pub fn sign_statement(&self, statement: Statement) -> (signed: SignedStatement)
        ensures
            signed@ == self.signed(statement@),
            signed.signature@ == ed25519_signature(
                self.key.seed(),
                statement_payload(statement@, self.parent_hash),
            ),
            signature_valid(signed@, self@.parent_hash),
    {
        let signature = sign_table_statement(&statement, &self.key, &self.parent_hash);
        let sender = self.key.public();
        assert(self.signature_for(statement@).0 =~= signature.0);
        SignedStatement { statement, signature, sender }
    }
}

} // verus!
