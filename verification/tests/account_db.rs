use polkadot_consensus::account_db::{
    commit_suicide, direct_commit_writes, purge_needed, AccountDb, AccountId, Balance,
    ChangeEntry, ChangeSet, OverlayAccountDb, StorageChanges, StorageWrite, SuicideTransfer,
    UpdateBalanceOutcome,
};
use polkadot_consensus::primitives::AuthorityId;
use polkadot_consensus::vec_map::VecMap;

/// A database in which every account has the balance 100, the code `[7]`
/// and the value `[1]` at the location `[0]`.
struct Fixed;

impl AccountDb for Fixed {
    fn get_storage(&self, _account: &AccountId, location: &[u8]) -> Option<Vec<u8>> {
        if location == [0] {
            Some(vec![1])
        } else {
            None
        }
    }

    fn get_code(&self, _account: &AccountId) -> Vec<u8> {
        vec![7]
    }

    fn get_balance(&self, _account: &AccountId) -> Balance {
        100
    }

    fn commit(&mut self, _change_set: ChangeSet) {}
}

fn account(tag: u8) -> AccountId {
    AuthorityId([tag; 32])
}

#[test]
fn overlay_without_changes_reads_through() {
    let db = Fixed;
    let overlay = OverlayAccountDb::new(&db);
    assert_eq!(overlay.get_balance(&account(1)), 100);
    assert_eq!(overlay.get_code(&account(1)), vec![7]);
    assert_eq!(overlay.get_storage(&account(1), &[0]), Some(vec![1]));
    assert_eq!(overlay.get_storage(&account(1), &[9]), None);
    assert_eq!(overlay.into_change_set().len(), 0);
}

#[test]
fn overlay_reads_its_own_changes_first() {
    let db = Fixed;
    let mut overlay = OverlayAccountDb::new(&db);
    overlay.set_balance(&account(1), 5);
    overlay.set_code(&account(1), vec![8, 9]);
    overlay.set_storage(&account(1), vec![0], None);
    overlay.set_storage(&account(1), vec![2], Some(vec![3]));

    assert_eq!(overlay.get_balance(&account(1)), 5);
    assert_eq!(overlay.get_code(&account(1)), vec![8, 9]);
    assert_eq!(overlay.get_storage(&account(1), &[0]), None);
    assert_eq!(overlay.get_storage(&account(1), &[2]), Some(vec![3]));

    // Another account is not touched.
    assert_eq!(overlay.get_balance(&account(2)), 100);
    assert_eq!(overlay.get_storage(&account(2), &[0]), Some(vec![1]));

    let changes = overlay.into_change_set();
    assert_eq!(changes.len(), 1);
    let entry = changes.get(&account(1)).unwrap();
    assert_eq!(entry.balance, Some(5));
    assert_eq!(entry.code, Some(vec![8, 9]));
    assert_eq!(entry.storage.len(), 2);
    assert_eq!(entry.storage.get(&[0]), Some(&None));
    assert_eq!(entry.storage.get(&[2]), Some(&Some(vec![3])));
}

#[test]
fn later_changes_replace_earlier_ones() {
    let db = Fixed;
    let mut overlay = OverlayAccountDb::new(&db);
    overlay.set_storage(&account(1), vec![2], Some(vec![3]));
    overlay.set_storage(&account(1), vec![2], Some(vec![4]));
    overlay.set_balance(&account(1), 1);
    overlay.set_balance(&account(1), 2);
    assert_eq!(overlay.get_storage(&account(1), &[2]), Some(vec![4]));
    assert_eq!(overlay.get_balance(&account(1)), 2);
}

#[test]
fn commit_puts_a_change_set_on_top() {
    let db = Fixed;
    let mut lower = OverlayAccountDb::new(&db);
    lower.set_balance(&account(1), 5);
    lower.set_code(&account(1), vec![1]);
    lower.set_storage(&account(1), vec![1], Some(vec![1]));
    lower.set_storage(&account(1), vec![2], Some(vec![2]));

    let changes = {
        let mut upper = OverlayAccountDb::new(&lower);
        assert_eq!(upper.get_balance(&account(1)), 5);
        upper.set_storage(&account(1), vec![2], None);
        upper.set_storage(&account(1), vec![3], Some(vec![3]));
        upper.set_balance(&account(2), 9);
        upper.into_change_set()
    };
    lower.commit(changes);

    assert_eq!(lower.get_balance(&account(1)), 5);
    assert_eq!(lower.get_code(&account(1)), vec![1]);
    assert_eq!(lower.get_storage(&account(1), &[1]), Some(vec![1]));
    assert_eq!(lower.get_storage(&account(1), &[2]), None);
    assert_eq!(lower.get_storage(&account(1), &[3]), Some(vec![3]));
    assert_eq!(lower.get_balance(&account(2)), 9);
    assert_eq!(lower.get_code(&account(2)), vec![7]);
}

#[test]
fn storage_changes_are_kept_by_location() {
    let mut changes = StorageChanges::new();
    assert_eq!(changes.len(), 0);
    changes.insert(vec![1, 2], Some(vec![3]));
    changes.insert(vec![1], None);
    changes.insert(vec![1, 2], Some(vec![4]));
    assert_eq!(changes.len(), 2);
    assert_eq!(changes.get(&[1, 2]), Some(&Some(vec![4])));
    assert_eq!(changes.get(&[1]), Some(&None));
    assert_eq!(changes.get(&[]), None);

    let mut more = StorageChanges::new();
    more.insert(vec![1], Some(vec![9]));
    more.insert(vec![], Some(vec![]));
    changes.extend(more);
    assert_eq!(changes.len(), 3);
    assert_eq!(changes.get(&[1]), Some(&Some(vec![9])));
    assert_eq!(changes.get(&[]), Some(&Some(vec![])));

    let copy = changes.clone();
    assert_eq!(copy.len(), 3);
    assert_eq!(copy.get(&[1, 2]), Some(&Some(vec![4])));
}

#[test]
fn nothing_is_written_for_a_killed_account() {
    let mut entry = ChangeEntry::default();
    entry.code = Some(vec![1]);
    entry.storage.insert(vec![1], Some(vec![2]));
    let writes = direct_commit_writes(&entry, Some(UpdateBalanceOutcome::AccountKilled));
    assert!(writes.is_empty());
}

#[test]
fn code_is_written_before_storage() {
    let mut entry = ChangeEntry::default();
    entry.balance = Some(1);
    entry.code = Some(vec![1]);
    entry.storage.insert(vec![1], Some(vec![2]));
    entry.storage.insert(vec![3], None);
    let expected = vec![
        StorageWrite::Code(vec![1]),
        StorageWrite::Insert(vec![1], vec![2]),
        StorageWrite::Remove(vec![3]),
    ];
    assert_eq!(direct_commit_writes(&entry, Some(UpdateBalanceOutcome::Updated)), expected);
    assert_eq!(direct_commit_writes(&entry, None), expected);

    entry.code = None;
    assert_eq!(direct_commit_writes(&entry, None), expected[1..].to_vec_of_writes());
}

trait ToWrites {
    fn to_vec_of_writes(&self) -> Vec<StorageWrite>;
}

impl ToWrites for [StorageWrite] {
    fn to_vec_of_writes(&self) -> Vec<StorageWrite> {
        self.iter()
            .map(|write| match write {
                StorageWrite::Code(code) => StorageWrite::Code(code.clone()),
                StorageWrite::Insert(location, value) => {
                    StorageWrite::Insert(location.clone(), value.clone())
                }
                StorageWrite::Remove(location) => StorageWrite::Remove(location.clone()),
            })
            .collect()
    }
}

#[test]
fn suicide_leaves_everything_to_the_heir() {
    assert_eq!(commit_suicide(30, 12), SuicideTransfer { inherent_balance: 42, balance: 0 });
    assert_eq!(
        commit_suicide(u64::MAX, 1),
        SuicideTransfer { inherent_balance: u64::MAX, balance: 0 }
    );
    assert!(purge_needed(UpdateBalanceOutcome::Updated));
    assert!(!purge_needed(UpdateBalanceOutcome::AccountKilled));
}

#[test]
fn vec_map_holds_one_value_per_key() {
    let mut map: VecMap<AccountId, u32> = VecMap::new();
    assert_eq!(map.len(), 0);
    map.insert(account(1), 1);
    map.insert(account(2), 2);
    map.insert(account(1), 3);
    assert_eq!(map.len(), 2);
    assert_eq!(map.get(&account(1)), Some(&3));
    assert!(map.contains_key(&account(2)));
    assert_eq!(map.remove(&account(1)), Some(3));
    assert_eq!(map.remove(&account(1)), None);
    assert_eq!(map.key_at(0), account(2));
    assert_eq!(map.value_at(0), &2);
    assert_eq!(map.pop(), Some((account(2), 2)));
    assert_eq!(map.pop(), None);
}
