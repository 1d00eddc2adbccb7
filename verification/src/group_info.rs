//! Who guarantees what: the groups of validators per parachain.

use vstd::prelude::*;
use crate::error::Error;
use crate::primitives::{AuthorityId, Chain, DutyRoster, ParaId};
use crate::vec_map::VecMap;

verus! {

/// A set of validators.
#[derive(Debug)]
pub struct AuthoritySet {
    members: Vec<AuthorityId>,
}

impl View for AuthoritySet {
    type V = Set<AuthorityId>;

    closed spec fn view(&self) -> Set<AuthorityId> {
        self.members@.to_set()
    }
}

impl AuthoritySet {
    #[verifier::type_invariant]
    spec fn well_formed(self) -> bool {
        self.members@.no_duplicates()
    }

    /// The empty set.
    pub fn new() -> (set: AuthoritySet)
        ensures
            set@ == Set::<AuthorityId>::empty(),
    {
        let set = AuthoritySet { members: Vec::new() };
        assert(set.members@.to_set() =~= Set::<AuthorityId>::empty());
        set
    }

    /// Tells whether `authority` is in the set.
    pub fn contains(&self, authority: &AuthorityId) -> (found: bool)
        ensures
            found == self@.contains(*authority),
    {
        let mut i: usize = 0;
        while i < self.members.len()
            invariant
                i <= self.members.len(),
                forall|j: int| 0 <= j < i ==> self.members@[j] != *authority,
            decreases self.members.len() - i,
        {
            if self.members[i] == *authority {
                return true;
            }
            i += 1;
        }
        false
    }

    /// Adds `authority` to the set and tells whether it was new.
    pub fn insert(&mut self, authority: AuthorityId) -> (fresh: bool)
        ensures
            final(self)@ == old(self)@.insert(authority),
            fresh == !old(self)@.contains(authority),
    {
        proof {
            use_type_invariant(&*self);
        }
        if self.contains(&authority) {
            assert(self@.insert(authority) =~= self@);
            false
        } else {
            proof {
                self.members@.lemma_push_to_set_commute(authority);
            }
            let mut members: Vec<AuthorityId> = Vec::new();
            std::mem::swap(&mut members, &mut self.members);
            members.push(authority);
            self.members = members;
            true
        }
    }

    /// The number of validators in the set.
    pub fn len(&self) -> (count: usize)
        ensures
            self@.finite(),
            count == self@.len(),
    {
        proof {
            use_type_invariant(self);
            self.members@.unique_seq_to_set();
        }
        self.members.len()
    }

    /// The validators of the set, each once.
    pub fn to_vec(&self) -> (members: Vec<AuthorityId>)
        ensures
            members@.no_duplicates(),
            members@.to_set() == self@,
    {
        proof {
            use_type_invariant(self);
        }
        crate::primitives::copy_vec(&self.members)
    }
}

impl Clone for AuthoritySet {
    fn clone(&self) -> (copy: Self)
        ensures
            copy@ == self@,
    {
        proof {
            use_type_invariant(self);
        }
        AuthoritySet { members: crate::primitives::copy_vec(&self.members) }
    }
}

/// Information about one group: who guarantees validity and availability
/// of its candidates, and how many votes of each kind a candidate needs.
#[derive(Debug)]
pub struct GroupInfo {
    /// Authorities meant to check validity of candidates.
    pub validity_guarantors: AuthoritySet,
    /// Authorities meant to check availability of candidate data.
    pub availability_guarantors: AuthoritySet,
    /// Number of votes needed for validity.
    pub needed_validity: usize,
    /// Number of votes needed for availability.
    pub needed_availability: usize,
}

/// The contents of a [`GroupInfo`].
pub struct GroupInfoView {
    pub validity_guarantors: Set<AuthorityId>,
    pub availability_guarantors: Set<AuthorityId>,
    pub needed_validity: nat,
    pub needed_availability: nat,
}

impl View for GroupInfo {
    type V = GroupInfoView;

    open spec fn view(&self) -> GroupInfoView {
        GroupInfoView {
            validity_guarantors: self.validity_guarantors@,
            availability_guarantors: self.availability_guarantors@,
            needed_validity: self.needed_validity as nat,
            needed_availability: self.needed_availability as nat,
        }
    }
}

impl Clone for GroupInfo {
    fn clone(&self) -> (copy: Self)
        ensures
            copy@ == self@,
    {
        GroupInfo {
            validity_guarantors: self.validity_guarantors.clone(),
            availability_guarantors: self.availability_guarantors.clone(),
            needed_validity: self.needed_validity,
            needed_availability: self.needed_availability,
        }
    }
}

impl Default for GroupInfo {
    /// A group without guarantors, which needs no votes.
    fn default() -> (info: Self)
        ensures
            info@ == empty_group(),
    {
        GroupInfo {
            validity_guarantors: AuthoritySet::new(),
            availability_guarantors: AuthoritySet::new(),
            needed_validity: 0,
            needed_availability: 0,
        }
    }
}

/// The groups of one slot, by parachain.
pub type Groups = VecMap<ParaId, GroupInfo>;

/// What a map of groups holds.
pub open spec fn groups_view(groups: Map<ParaId, GroupInfo>) -> Map<ParaId, GroupInfoView> {
    groups.map_values(|info: GroupInfo| info@)
}

/// Half of `count`, rounded up.
pub open spec fn half_up(count: nat) -> nat {
    count / 2 + count % 2
}

/// Whether one of the first `upto` duties is for `group`.
pub open spec fn has_duty(duty: Seq<Chain>, group: ParaId, upto: int) -> bool {
    exists|i: int| 0 <= i < upto && #[trigger] duty[i] == Chain::Parachain(group)
}

/// The authorities whose duty, among the first `upto`, is for `group`.
pub open spec fn duty_members(
    duty: Seq<Chain>,
    authorities: Seq<AuthorityId>,
    group: ParaId,
    upto: int,
) -> Set<AuthorityId> {
    Set::new(
        |a: AuthorityId|
            exists|i: int|
                0 <= i < upto && #[trigger] duty[i] == Chain::Parachain(group) && authorities[i] == a,
    )
}

/// The groups that the first `validators` validity duties and the first
/// `guarantors` availability duties give rise to.
pub open spec fn group_info_upto(
    validator_duty: Seq<Chain>,
    guarantor_duty: Seq<Chain>,
    authorities: Seq<AuthorityId>,
    validators: int,
    guarantors: int,
) -> Map<ParaId, GroupInfoView> {
    Map::new(
        |group: ParaId|
            has_duty(validator_duty, group, validators) || has_duty(guarantor_duty, group, guarantors),
        |group: ParaId|
            GroupInfoView {
                validity_guarantors: duty_members(validator_duty, authorities, group, validators),
                availability_guarantors: duty_members(
                    guarantor_duty,
                    authorities,
                    group,
                    guarantors,
                ),
                needed_validity: half_up(
                    duty_members(validator_duty, authorities, group, validators).len(),
                ),
                needed_availability: half_up(
                    duty_members(guarantor_duty, authorities, group, guarantors).len(),
                ),
            },
    )
}

/// The groups of a duty roster: every parachain that some duty names, with
/// the authorities assigned to it and half of each set, rounded up, as the
/// number of votes needed. Duties for the relay chain form no group.
pub open spec fn group_info_spec(
    validator_duty: Seq<Chain>,
    guarantor_duty: Seq<Chain>,
    authorities: Seq<AuthorityId>,
) -> Map<ParaId, GroupInfoView> {
    group_info_upto(
        validator_duty,
        guarantor_duty,
        authorities,
        authorities.len() as int,
        authorities.len() as int,
    )
}

/// Taking one more duty into account adds its authority to the group it
/// names and leaves every other group alone.
proof fn lemma_duty_members_step(
    duty: Seq<Chain>,
    authorities: Seq<AuthorityId>,
    group: ParaId,
    upto: int,
)
    requires
        0 <= upto < duty.len(),
        duty.len() == authorities.len(),
    ensures
        duty[upto] == Chain::Parachain(group) ==> duty_members(duty, authorities, group, upto + 1)
            == duty_members(duty, authorities, group, upto).insert(authorities[upto]),
        duty[upto] != Chain::Parachain(group) ==> duty_members(duty, authorities, group, upto + 1)
            == duty_members(duty, authorities, group, upto),
        has_duty(duty, group, upto + 1) == (has_duty(duty, group, upto) || duty[upto]
            == Chain::Parachain(group)),
        !has_duty(duty, group, upto) ==> duty_members(duty, authorities, group, upto)
            == Set::<AuthorityId>::empty(),
{
    let before = duty_members(duty, authorities, group, upto);
    let after = duty_members(duty, authorities, group, upto + 1);
    if duty[upto] == Chain::Parachain(group) {
        assert forall|a: AuthorityId| after.contains(a) <==> before.insert(
            authorities[upto],
        ).contains(a) by {
            if after.contains(a) {
                let i = choose|i: int|
                    0 <= i < upto + 1 && #[trigger] duty[i] == Chain::Parachain(group)
                        && authorities[i] == a;
                if i < upto {
                    assert(duty[i] == Chain::Parachain(group) && authorities[i] == a);
                }
            }
            if before.contains(a) {
                let i = choose|i: int|
                    0 <= i < upto && #[trigger] duty[i] == Chain::Parachain(group) && authorities[i]
                        == a;
                assert(duty[i] == Chain::Parachain(group) && authorities[i] == a);
            }
            if a == authorities[upto] {
                assert(duty[upto] == Chain::Parachain(group) && authorities[upto] == a);
            }
        }
        assert(after =~= before.insert(authorities[upto]));
    } else {
        assert forall|a: AuthorityId| after.contains(a) <==> before.contains(a) by {
            if after.contains(a) {
                let i = choose|i: int|
                    0 <= i < upto + 1 && #[trigger] duty[i] == Chain::Parachain(group)
                        && authorities[i] == a;
                assert(duty[i] == Chain::Parachain(group) && authorities[i] == a);
            }
            if before.contains(a) {
                let i = choose|i: int|
                    0 <= i < upto && #[trigger] duty[i] == Chain::Parachain(group) && authorities[i]
                        == a;
                assert(duty[i] == Chain::Parachain(group) && authorities[i] == a);
            }
        }
        assert(after =~= before);
    }
    if has_duty(duty, group, upto + 1) {
        let i = choose|i: int| 0 <= i < upto + 1 && #[trigger] duty[i] == Chain::Parachain(group);
        if i < upto {
            assert(duty[i] == Chain::Parachain(group));
        }
    }
    if has_duty(duty, group, upto) {
        let i = choose|i: int| 0 <= i < upto && #[trigger] duty[i] == Chain::Parachain(group);
        assert(duty[i] == Chain::Parachain(group));
    }
    if duty[upto] == Chain::Parachain(group) {
        assert(has_duty(duty, group, upto + 1));
    }
    if !has_duty(duty, group, upto) {
        assert forall|a: AuthorityId| !before.contains(a) by {
            if before.contains(a) {
                let i = choose|i: int|
                    0 <= i < upto && #[trigger] duty[i] == Chain::Parachain(group) && authorities[i]
                        == a;
                assert(duty[i] == Chain::Parachain(group));
            }
        }
        assert(before =~= Set::<AuthorityId>::empty());
    }
}

/// The members of a group are authorities, so they are finitely many.
pub proof fn lemma_duty_members_finite(
    duty: Seq<Chain>,
    authorities: Seq<AuthorityId>,
    group: ParaId,
    upto: int,
)
    requires
        0 <= upto <= duty.len(),
        duty.len() == authorities.len(),
    ensures
        duty_members(duty, authorities, group, upto).finite(),
        duty_members(duty, authorities, group, upto).len() <= upto,
    decreases upto,
{
    if upto == 0 {
        assert(duty_members(duty, authorities, group, 0) =~= Set::<AuthorityId>::empty());
    } else {
        lemma_duty_members_finite(duty, authorities, group, upto - 1);
        lemma_duty_members_step(duty, authorities, group, upto - 1);
    }
}

/// The group without guarantors.
pub open spec fn empty_group() -> GroupInfoView {
    GroupInfoView {
        validity_guarantors: Set::empty(),
        availability_guarantors: Set::empty(),
        needed_validity: 0,
        needed_availability: 0,
    }
}

/// The group stored for `group`, or the empty group.
pub open spec fn group_or_empty(groups: Map<ParaId, GroupInfo>, group: ParaId) -> GroupInfoView {
    if groups.contains_key(group) {
        groups[group]@
    } else {
        empty_group()
    }
}

/// `before` with one more validity guarantor.
pub open spec fn with_validity_guarantor(before: GroupInfoView, authority: AuthorityId) -> GroupInfoView {
    GroupInfoView {
        validity_guarantors: before.validity_guarantors.insert(authority),
        needed_validity: half_up(before.validity_guarantors.insert(authority).len()),
        ..before
    }
}

/// `before` with one more availability guarantor.
pub open spec fn with_availability_guarantor(
    before: GroupInfoView,
    authority: AuthorityId,
) -> GroupInfoView {
    GroupInfoView {
        availability_guarantors: before.availability_guarantors.insert(authority),
        needed_availability: half_up(before.availability_guarantors.insert(authority).len()),
        ..before
    }
}

/// Adds `authority` to the validity guarantors of `group`, making the group
/// if it is new.
fn add_validity_guarantor(groups: &mut Groups, group: ParaId, authority: AuthorityId)
    ensures
        groups_view(final(groups)@) == groups_view(old(groups)@).insert(
            group,
            with_validity_guarantor(group_or_empty(old(groups)@, group), authority),
        ),
{
    let mut info = match groups.remove(&group) {
        Some(info) => info,
        None => GroupInfo::default(),
    };
    info.validity_guarantors.insert(authority);
    let count = info.validity_guarantors.len();
    info.needed_validity = count / 2 + count % 2;
    let ghost view = info@;
    groups.insert(group, info);
    assert(groups_view(groups@) =~= groups_view(old(groups)@).insert(group, view));
}

/// Adds `authority` to the availability guarantors of `group`, making the
/// group if it is new.
fn add_availability_guarantor(groups: &mut Groups, group: ParaId, authority: AuthorityId)
    ensures
        groups_view(final(groups)@) == groups_view(old(groups)@).insert(
            group,
            with_availability_guarantor(group_or_empty(old(groups)@, group), authority),
        ),
{
    let mut info = match groups.remove(&group) {
        Some(info) => info,
        None => GroupInfo::default(),
    };
    info.availability_guarantors.insert(authority);
    let count = info.availability_guarantors.len();
    info.needed_availability = count / 2 + count % 2;
    let ghost view = info@;
    groups.insert(group, info);
    assert(groups_view(groups@) =~= groups_view(old(groups)@).insert(group, view));
}

/// The group that `groups` holds for `group`, or the empty group.
pub open spec fn view_or_empty(groups: Map<ParaId, GroupInfoView>, group: ParaId) -> GroupInfoView {
    if groups.contains_key(group) {
        groups[group]
    } else {
        empty_group()
    }
}

/// Taking one more validity duty into account changes at most the group that
/// the duty names.
proof fn lemma_groups_validity_step(
    vd: Seq<Chain>,
    gd: Seq<Chain>,
    auths: Seq<AuthorityId>,
    i: int,
    j: int,
)
    requires
        0 <= i < vd.len(),
        vd.len() == auths.len(),
    ensures
        group_info_upto(vd, gd, auths, i + 1, j) == (match vd[i] {
            Chain::Relay => group_info_upto(vd, gd, auths, i, j),
            Chain::Parachain(id) => group_info_upto(vd, gd, auths, i, j).insert(
                id,
                with_validity_guarantor(
                    view_or_empty(group_info_upto(vd, gd, auths, i, j), id),
                    auths[i],
                ),
            ),
        }),
{
    let before = group_info_upto(vd, gd, auths, i, j);
    let after = group_info_upto(vd, gd, auths, i + 1, j);
    let expected = match vd[i] {
        Chain::Relay => before,
        Chain::Parachain(id) => before.insert(
            id,
            with_validity_guarantor(view_or_empty(before, id), auths[i]),
        ),
    };
    assert(Set::<AuthorityId>::empty().len() == 0);
    assert forall|g: ParaId| after.contains_key(g) == expected.contains_key(g) && (
    after.contains_key(g) ==> #[trigger] after[g] == expected[g]) by {
        lemma_duty_members_step(vd, auths, g, i);
        if !has_duty(gd, g, j) {
            assert forall|a: AuthorityId| !duty_members(gd, auths, g, j).contains(a) by {
                if duty_members(gd, auths, g, j).contains(a) {
                    let k = choose|k: int|
                        0 <= k < j && #[trigger] gd[k] == Chain::Parachain(g) && auths[k] == a;
                    assert(gd[k] == Chain::Parachain(g));
                }
            }
            assert(duty_members(gd, auths, g, j) =~= Set::<AuthorityId>::empty());
        }
    }
    assert(after =~= expected);
}

/// Taking one more availability duty into account changes at most the group
/// that the duty names.
proof fn lemma_groups_availability_step(
    vd: Seq<Chain>,
    gd: Seq<Chain>,
    auths: Seq<AuthorityId>,
    i: int,
    j: int,
)
    requires
        0 <= j < gd.len(),
        gd.len() == auths.len(),
    ensures
        group_info_upto(vd, gd, auths, i, j + 1) == (match gd[j] {
            Chain::Relay => group_info_upto(vd, gd, auths, i, j),
            Chain::Parachain(id) => group_info_upto(vd, gd, auths, i, j).insert(
                id,
                with_availability_guarantor(
                    view_or_empty(group_info_upto(vd, gd, auths, i, j), id),
                    auths[j],
                ),
            ),
        }),
{
    let before = group_info_upto(vd, gd, auths, i, j);
    let after = group_info_upto(vd, gd, auths, i, j + 1);
    let expected = match gd[j] {
        Chain::Relay => before,
        Chain::Parachain(id) => before.insert(
            id,
            with_availability_guarantor(view_or_empty(before, id), auths[j]),
        ),
    };
    assert(Set::<AuthorityId>::empty().len() == 0);
    assert forall|g: ParaId| after.contains_key(g) == expected.contains_key(g) && (
    after.contains_key(g) ==> #[trigger] after[g] == expected[g]) by {
        lemma_duty_members_step(gd, auths, g, j);
        if !has_duty(vd, g, i) {
            assert forall|a: AuthorityId| !duty_members(vd, auths, g, i).contains(a) by {
                if duty_members(vd, auths, g, i).contains(a) {
                    let k = choose|k: int|
                        0 <= k < i && #[trigger] vd[k] == Chain::Parachain(g) && auths[k] == a;
                    assert(vd[k] == Chain::Parachain(g));
                }
            }
            assert(duty_members(vd, auths, g, i) =~= Set::<AuthorityId>::empty());
        }
    }
    assert(after =~= expected);
}

/// Derives the groups of a slot from its duty roster and the ordered list of
/// authorities.
///
/// Both lists of the roster must be as long as the authority list; the
/// validity list is looked at first. For each position, the authority there
/// joins the validity guarantors of the parachain that its validity duty
/// names and the availability guarantors of the one that its availability
/// duty names.
pub fn make_group_info(roster: DutyRoster, authorities: &[AuthorityId]) -> (result: Result<
    Groups,
    Error,
>)
    ensures
        match result {
            Ok(groups) => {
                &&& roster.validator_duty@.len() == authorities@.len()
                &&& roster.guarantor_duty@.len() == authorities@.len()
                &&& groups_view(groups@) == group_info_spec(
                    roster.validator_duty@,
                    roster.guarantor_duty@,
                    authorities@,
                )
            },
            Err(error) => if roster.validator_duty@.len() != authorities@.len() {
                error == Error::InvalidDutyRosterLength(
                    authorities@.len() as usize,
                    roster.validator_duty@.len() as usize,
                )
            } else {
                &&& roster.guarantor_duty@.len() != authorities@.len()
                &&& error == Error::InvalidDutyRosterLength(
                    authorities@.len() as usize,
                    roster.guarantor_duty@.len() as usize,
                )
            },
        },
{
    if roster.validator_duty.len() != authorities.len() {
        return Err(Error::InvalidDutyRosterLength(authorities.len(), roster.validator_duty.len()));
    }
    if roster.guarantor_duty.len() != authorities.len() {
        return Err(Error::InvalidDutyRosterLength(authorities.len(), roster.guarantor_duty.len()));
    }
    let ghost vd = roster.validator_duty@;
    let ghost gd = roster.guarantor_duty@;
    let ghost auths = authorities@;
    let mut groups: Groups = VecMap::new();
    assert(groups_view(groups@) =~= group_info_upto(vd, gd, auths, 0, 0));
    let mut i: usize = 0;
    while i < authorities.len()
        invariant
            i <= authorities.len(),
            vd == roster.validator_duty@,
            gd == roster.guarantor_duty@,
            auths == authorities@,
            vd.len() == auths.len(),
            gd.len() == auths.len(),
            groups_view(groups@) == group_info_upto(vd, gd, auths, i as int, i as int),
        decreases authorities.len() - i,
    {
        let authority = authorities[i];
        proof {
            lemma_groups_validity_step(vd, gd, auths, i as int, i as int);
            lemma_groups_availability_step(vd, gd, auths, i + 1, i as int);
        }
        match roster.validator_duty[i] {
            Chain::Relay => {},
            Chain::Parachain(id) => {
                assert(group_or_empty(groups@, id) == view_or_empty(groups_view(groups@), id));
                add_validity_guarantor(&mut groups, id, authority);
            },
        }
        assert(groups_view(groups@) == group_info_upto(vd, gd, auths, i + 1, i as int));
        match roster.guarantor_duty[i] {
            Chain::Relay => {},
            Chain::Parachain(id) => {
                assert(group_or_empty(groups@, id) == view_or_empty(groups_view(groups@), id));
                add_availability_guarantor(&mut groups, id, authority);
            },
        }
        assert(groups_view(groups@) == group_info_upto(vd, gd, auths, i + 1, i + 1));
        i += 1;
    }
    Ok(groups)
}

/// The groups depend on nothing but the duties and the authorities: the same
/// lists give the same groups.
pub proof fn lemma_group_info_deterministic(
    validator_duty: Seq<Chain>,
    guarantor_duty: Seq<Chain>,
    authorities: Seq<AuthorityId>,
    validator_duty2: Seq<Chain>,
    guarantor_duty2: Seq<Chain>,
    authorities2: Seq<AuthorityId>,
)
    requires
        validator_duty =~= validator_duty2,
        guarantor_duty =~= guarantor_duty2,
        authorities =~= authorities2,
    ensures
        group_info_spec(validator_duty, guarantor_duty, authorities) == group_info_spec(
            validator_duty2,
            guarantor_duty2,
            authorities2,
        ),
{
}

/// In every group, the number of votes needed is half the number of
/// guarantors, rounded up: the least number that is no less than half.
pub proof fn lemma_needed_votes_are_half_rounded_up(
    validator_duty: Seq<Chain>,
    guarantor_duty: Seq<Chain>,
    authorities: Seq<AuthorityId>,
    group: ParaId,
)
    requires
        validator_duty.len() == authorities.len(),
        guarantor_duty.len() == authorities.len(),
        group_info_spec(validator_duty, guarantor_duty, authorities).contains_key(group),
    ensures
        ({
            let info = group_info_spec(validator_duty, guarantor_duty, authorities)[group];
            &&& info.validity_guarantors.finite()
            &&& info.availability_guarantors.finite()
            &&& 2 * info.needed_validity >= info.validity_guarantors.len()
            &&& 2 * info.needed_validity <= info.validity_guarantors.len() + 1
            &&& 2 * info.needed_availability >= info.availability_guarantors.len()
            &&& 2 * info.needed_availability <= info.availability_guarantors.len() + 1
        }),
{
    lemma_duty_members_finite(validator_duty, authorities, group, authorities.len() as int);
    lemma_duty_members_finite(guarantor_duty, authorities, group, authorities.len() as int);
}

} // verus!
