use polkadot_consensus::error::Error;
use polkadot_consensus::group_info::{make_group_info, AuthoritySet, GroupInfo};
use polkadot_consensus::primitives::{AuthorityId, Chain, DutyRoster, ParaId};

fn authority(tag: u8) -> AuthorityId {
    AuthorityId([tag; 32])
}

#[test]
fn groups_follow_the_duty_roster() {
    let (a, b, c, d) = (authority(1), authority(2), authority(3), authority(4));
    let roster = DutyRoster {
        validator_duty: vec![
            Chain::Relay,
            Chain::Parachain(ParaId(1)),
            Chain::Parachain(ParaId(1)),
            Chain::Parachain(ParaId(2)),
        ],
        guarantor_duty: vec![
            Chain::Parachain(ParaId(1)),
            Chain::Relay,
            Chain::Parachain(ParaId(2)),
            Chain::Parachain(ParaId(2)),
        ],
    };
    let groups = make_group_info(roster, &[a, b, c, d]).unwrap();
    assert_eq!(groups.len(), 2);

    let one = groups.get(&ParaId(1)).unwrap();
    assert_eq!(one.validity_guarantors.len(), 2);
    assert!(one.validity_guarantors.contains(&b));
    assert!(one.validity_guarantors.contains(&c));
    assert_eq!(one.availability_guarantors.len(), 1);
    assert!(one.availability_guarantors.contains(&a));
    assert_eq!(one.needed_validity, 1);
    assert_eq!(one.needed_availability, 1);

    let two = groups.get(&ParaId(2)).unwrap();
    assert_eq!(two.validity_guarantors.len(), 1);
    assert!(two.validity_guarantors.contains(&d));
    assert_eq!(two.availability_guarantors.len(), 2);
    assert!(two.availability_guarantors.contains(&c));
    assert!(two.availability_guarantors.contains(&d));
    assert_eq!(two.needed_validity, 1);
    assert_eq!(two.needed_availability, 1);

    assert!(groups.get(&ParaId(3)).is_none());
}

#[test]
fn short_validator_duty_is_refused() {
    let roster = DutyRoster {
        validator_duty: vec![Chain::Relay],
        guarantor_duty: vec![Chain::Relay, Chain::Relay],
    };
    let result = make_group_info(roster, &[authority(1), authority(2)]);
    assert_eq!(result.err(), Some(Error::InvalidDutyRosterLength(2, 1)));
}

#[test]
fn long_guarantor_duty_is_refused() {
    let roster = DutyRoster {
        validator_duty: vec![Chain::Relay, Chain::Relay],
        guarantor_duty: vec![Chain::Relay, Chain::Relay, Chain::Relay],
    };
    let result = make_group_info(roster, &[authority(1), authority(2)]);
    assert_eq!(result.err(), Some(Error::InvalidDutyRosterLength(2, 3)));
}

#[test]
fn needed_votes_are_half_rounded_up() {
    let authorities: Vec<AuthorityId> = (1..=5).map(authority).collect();
    let roster = DutyRoster {
        validator_duty: vec![Chain::Parachain(ParaId(7)); 5],
        guarantor_duty: vec![
            Chain::Parachain(ParaId(7)),
            Chain::Parachain(ParaId(7)),
            Chain::Parachain(ParaId(7)),
            Chain::Parachain(ParaId(7)),
            Chain::Relay,
        ],
    };
    let groups = make_group_info(roster, &authorities).unwrap();
    let group = groups.get(&ParaId(7)).unwrap();
    assert_eq!(group.validity_guarantors.len(), 5);
    assert_eq!(group.needed_validity, 3);
    assert_eq!(group.availability_guarantors.len(), 4);
    assert_eq!(group.needed_availability, 2);
}

#[test]
fn equal_rosters_give_equal_groups() {
    let authorities = [authority(1), authority(2), authority(3)];
    let roster = || DutyRoster {
        validator_duty: vec![
            Chain::Parachain(ParaId(1)),
            Chain::Parachain(ParaId(2)),
            Chain::Parachain(ParaId(1)),
        ],
        guarantor_duty: vec![Chain::Relay, Chain::Parachain(ParaId(2)), Chain::Relay],
    };
    let first = make_group_info(roster(), &authorities).unwrap();
    let second = make_group_info(roster(), &authorities).unwrap();
    assert_eq!(first.len(), second.len());
    for id in [ParaId(1), ParaId(2)] {
        let (x, y) = (first.get(&id).unwrap(), second.get(&id).unwrap());
        assert_eq!(x.needed_validity, y.needed_validity);
        assert_eq!(x.needed_availability, y.needed_availability);
        for a in authorities.iter() {
            assert_eq!(x.validity_guarantors.contains(a), y.validity_guarantors.contains(a));
            assert_eq!(
                x.availability_guarantors.contains(a),
                y.availability_guarantors.contains(a)
            );
        }
    }
}

#[test]
fn an_authority_listed_twice_counts_once() {
    let roster = DutyRoster {
        validator_duty: vec![Chain::Parachain(ParaId(1)), Chain::Parachain(ParaId(1))],
        guarantor_duty: vec![Chain::Relay, Chain::Relay],
    };
    let groups = make_group_info(roster, &[authority(9), authority(9)]).unwrap();
    let group = groups.get(&ParaId(1)).unwrap();
    assert_eq!(group.validity_guarantors.len(), 1);
    assert_eq!(group.needed_validity, 1);
    assert_eq!(group.needed_availability, 0);
}

#[test]
fn relay_duties_form_no_group() {
    let roster = DutyRoster {
        validator_duty: vec![Chain::Relay],
        guarantor_duty: vec![Chain::Relay],
    };
    let groups = make_group_info(roster, &[authority(1)]).unwrap();
    assert_eq!(groups.len(), 0);
}

#[test]
fn authority_set_holds_each_member_once() {
    let mut set = AuthoritySet::new();
    assert!(set.insert(authority(1)));
    assert!(!set.insert(authority(1)));
    assert!(set.insert(authority(2)));
    assert_eq!(set.len(), 2);
    assert!(!set.contains(&authority(3)));
    assert_eq!(set.to_vec(), vec![authority(1), authority(2)]);
}

#[test]
fn default_group_is_empty() {
    let group = GroupInfo::default();
    assert_eq!(group.validity_guarantors.len(), 0);
    assert_eq!(group.availability_guarantors.len(), 0);
    assert_eq!(group.needed_validity, 0);
    assert_eq!(group.needed_availability, 0);
}
