//! Partial changes to the state of accounts.
//!
//! A change set records what a run of contract code wants to change:
//! balances, code and storage, by account. An overlay answers reads from a
//! change set first and from the database underneath otherwise, so that
//! changes can be tried and then committed or dropped as a whole.

use vstd::prelude::*;
use crate::primitives::{copy_vec, AuthorityId};
use crate::vec_map::VecMap;

verus! {

/// The identifier of an account.
pub type AccountId = AuthorityId;

/// An amount of funds.
pub type Balance = u64;

/// Compares two byte strings.
pub fn bytes_equal(a: &[u8], b: &[u8]) -> (same: bool)
    ensures
        same == (a@ == b@),
{
    if a.len() != b.len() {
        return false;
    }
    let mut i: usize = 0;
    while i < a.len()
        invariant
            i <= a.len(),
            a.len() == b.len(),
            forall|j: int| 0 <= j < i ==> a@[j] == b@[j],
        decreases a.len() - i,
    {
        if a[i] != b[i] {
            return false;
        }
        i += 1;
    }
    assert(a@ =~= b@);
    true
}

/// What a stored value holds: the bytes, or nothing where the value is
/// removed.
pub open spec fn value_view(value: Option<Vec<u8>>) -> Option<Seq<u8>> {
    match value {
        Some(bytes) => Some(bytes@),
        None => None,
    }
}

/// The locations of a list of storage entries, in order.
pub open spec fn entry_locations(entries: Seq<(Vec<u8>, Option<Vec<u8>>)>) -> Seq<Seq<u8>> {
    Seq::new(entries.len(), |i: int| entries[i].0@)
}

/// Changes to the storage of one account: for each location that changes,
/// its new value, or nothing where the value is removed.
#[derive(Debug)]
pub struct StorageChanges {
    entries: Vec<(Vec<u8>, Option<Vec<u8>>)>,
}

impl View for StorageChanges {
    type V = Map<Seq<u8>, Option<Seq<u8>>>;

    closed spec fn view(&self) -> Map<Seq<u8>, Option<Seq<u8>>> {
        Map::new(
            |location: Seq<u8>| entry_locations(self.entries@).contains(location),
            |location: Seq<u8>|
                value_view(self.entries@[entry_locations(self.entries@).index_of(location)].1),
        )
    }
}

impl StorageChanges {
    #[verifier::type_invariant]
    spec fn well_formed(self) -> bool {
        entry_locations(self.entries@).no_duplicates()
    }

    /// The locations in the order in which the changes are walked.
    pub closed spec fn location_seq(&self) -> Seq<Seq<u8>> {
        entry_locations(self.entries@)
    }

    /// No changes.
    pub fn new() -> (changes: Self)
        ensures
            changes@ == Map::<Seq<u8>, Option<Seq<u8>>>::empty(),
    {
        let changes = StorageChanges { entries: Vec::new() };
        assert(changes@ =~= Map::<Seq<u8>, Option<Seq<u8>>>::empty());
        changes
    }

    fn position(&self, location: &[u8]) -> (at: Option<usize>)
        ensures
            match at {
                Some(i) => i < self.entries@.len() && self.entries@[i as int].0@ == location@
                    && entry_locations(self.entries@).contains(location@) && entry_locations(
                    self.entries@,
                ).index_of(location@) == i,
                None => !entry_locations(self.entries@).contains(location@),
            },
    {
        proof {
            use_type_invariant(self);
        }
        let ghost keys = entry_locations(self.entries@);
        let mut i: usize = 0;
        while i < self.entries.len()
            invariant
                i <= self.entries.len(),
                keys == entry_locations(self.entries@),
                keys.no_duplicates(),
                forall|j: int| 0 <= j < i ==> keys[j] != location@,
            decreases self.entries.len() - i,
        {
            if bytes_equal(self.entries[i].0.as_slice(), location) {
                assert(keys[i as int] == location@);
                assert(keys[keys.index_of(location@)] == location@);
                return Some(i);
            }
            i += 1;
        }
        None
    }

    /// The number of locations that change.
    pub fn len(&self) -> (count: usize)
        ensures
            self@.dom().finite(),
            count == self@.dom().len(),
            count == self.location_seq().len(),
            self.location_seq().no_duplicates(),
            self.location_seq().to_set() == self@.dom(),
    {
        proof {
            use_type_invariant(self);
            entry_locations(self.entries@).unique_seq_to_set();
            assert(entry_locations(self.entries@).to_set() =~= self@.dom());
        }
        self.entries.len()
    }

    /// The change at `location`, if there is one: the new value, or nothing
    /// where the value is removed.
    pub fn get(&self, location: &[u8]) -> (found: Option<&Option<Vec<u8>>>)
        ensures
            match found {
                Some(value) => self@.contains_key(location@) && value_view(*value)
                    == self@[location@],
                None => !self@.contains_key(location@),
            },
    {
        match self.position(location) {
            Some(i) => Some(&self.entries[i].1),
            None => None,
        }
    }

    /// The location at position `i` of the walk.
    pub fn location_at(&self, i: usize) -> (location: &Vec<u8>)
        requires
            i < self.location_seq().len(),
        ensures
            location@ == self.location_seq()[i as int],
            self@.contains_key(location@),
    {
        assert(entry_locations(self.entries@)[i as int] == self.entries@[i as int].0@);
        &self.entries[i].0
    }

    /// The new value at position `i` of the walk.
    pub fn value_at(&self, i: usize) -> (value: &Option<Vec<u8>>)
        requires
            i < self.location_seq().len(),
        ensures
            self@.contains_key(self.location_seq()[i as int]),
            value_view(*value) == self@[self.location_seq()[i as int]],
    {
        proof {
            use_type_invariant(self);
            let keys = entry_locations(self.entries@);
            assert(keys[i as int] == self.entries@[i as int].0@);
            assert(keys.index_of(keys[i as int]) == i as int);
        }
        &self.entries[i].1
    }

    /// Records the new value of `location`, in place of what was recorded
    /// for it before.
    pub fn insert(&mut self, location: Vec<u8>, value: Option<Vec<u8>>)
        ensures
            final(self)@ == old(self)@.insert(location@, value_view(value)),
    {
        proof {
            use_type_invariant(&*self);
        }
        let at = self.position(location.as_slice());
        let mut entries: Vec<(Vec<u8>, Option<Vec<u8>>)> = Vec::new();
        assert(entry_locations(entries@) =~= Seq::<Seq<u8>>::empty());
        std::mem::swap(&mut entries, &mut self.entries);
        let ghost old_entries = entries@;
        let ghost old_keys = entry_locations(old_entries);
        let ghost key = location@;
        let ghost new_value = value_view(value);
        match at {
            Some(i) => {
                entries.set(i, (location, value));
                proof {
                    assert(entry_locations(entries@) =~= old_keys);
                }
            },
            None => {
                entries.push((location, value));
                proof {
                    assert(entry_locations(entries@) =~= old_keys.push(key));
                }
            },
        }
        let ghost keys = entry_locations(entries@);
        proof {
            assert(keys.no_duplicates());
            assert(keys.contains(key)) by {
                match at {
                    Some(i) => {
                        assert(keys[i as int] == key);
                    },
                    None => {
                        assert(keys[old_keys.len() as int] == key);
                    },
                }
            }
            assert forall|k: Seq<u8>| keys.contains(k) <==> (k == key || old_keys.contains(k)) by {
                if keys.contains(k) && k != key {
                    let j = keys.index_of(k);
                    assert(keys[j] == k);
                    assert(old_keys[j] == k);
                }
                if old_keys.contains(k) {
                    let j = old_keys.index_of(k);
                    assert(old_keys[j] == k);
                    assert(keys[j] == k);
                }
            }
            assert forall|k: Seq<u8>| keys.contains(k) && k != key implies value_view(
                entries@[keys.index_of(k)].1,
            ) == value_view(old_entries[old_keys.index_of(k)].1) by {
                let j = keys.index_of(k);
                assert(keys[j] == k);
                assert(old_keys[j] == k);
                let j2 = old_keys.index_of(k);
                assert(old_keys[j2] == k);
            }
            assert(value_view(entries@[keys.index_of(key)].1) == new_value) by {
                let j = keys.index_of(key);
                assert(keys[j] == key);
                match at {
                    Some(i) => {
                        assert(keys[i as int] == key);
                    },
                    None => {
                        assert(keys[old_keys.len() as int] == key);
                    },
                }
            }
        }
        self.entries = entries;
        assert(self@ =~= old(self)@.insert(key, new_value));
    }

    /// Takes some change out, if there is any.
    pub fn pop(&mut self) -> (entry: Option<(Vec<u8>, Option<Vec<u8>>)>)
        ensures
            match entry {
                Some(entry) => old(self)@.contains_key(entry.0@) && value_view(entry.1) == old(
                    self,
                )@[entry.0@] && final(self)@ == old(self)@.remove(entry.0@),
                None => old(self)@ == Map::<Seq<u8>, Option<Seq<u8>>>::empty() && final(self)@
                    == old(self)@,
            },
    {
        proof {
            use_type_invariant(&*self);
        }
        let mut entries: Vec<(Vec<u8>, Option<Vec<u8>>)> = Vec::new();
        assert(entry_locations(entries@) =~= Seq::<Seq<u8>>::empty());
        std::mem::swap(&mut entries, &mut self.entries);
        let ghost old_entries = entries@;
        let ghost old_keys = entry_locations(old_entries);
        let entry = entries.pop();
        let ghost popped = entry;
        let ghost keys = entry_locations(entries@);
        proof {
            match popped {
                Some(entry) => {
                    let last = old_entries.len() - 1;
                    let key = entry.0@;
                    assert(keys =~= old_keys.drop_last());
                    assert(old_keys[last] == key);
                    assert(old_keys.index_of(key) == last) by {
                        let j = old_keys.index_of(key);
                        assert(old_keys[j] == key);
                    }
                    assert forall|k: Seq<u8>| keys.contains(k) <==> (k != key && old_keys.contains(
                        k,
                    )) by {
                        if keys.contains(k) {
                            let j = keys.index_of(k);
                            assert(keys[j] == k);
                            assert(old_keys[j] == k);
                        }
                        if k != key && old_keys.contains(k) {
                            let j = old_keys.index_of(k);
                            assert(old_keys[j] == k);
                            assert(keys[j] == k);
                        }
                    }
                    assert forall|k: Seq<u8>| keys.contains(k) implies value_view(
                        entries@[keys.index_of(k)].1,
                    ) == value_view(old_entries[old_keys.index_of(k)].1) by {
                        let j = keys.index_of(k);
                        assert(keys[j] == k);
                        assert(old_keys[j] == k);
                        let j2 = old_keys.index_of(k);
                        assert(old_keys[j2] == k);
                    }
                },
                None => {
                    assert(old_keys =~= Seq::<Seq<u8>>::empty());
                },
            }
        }
        self.entries = entries;
        proof {
            match popped {
                Some(entry) => {
                    assert(self@ =~= old(self)@.remove(entry.0@));
                },
                None => {
                    assert(old(self)@ =~= Map::<Seq<u8>, Option<Seq<u8>>>::empty());
                    assert(self@ =~= old(self)@);
                },
            }
        }
        entry
    }

    /// Records every change of `other`, in place of what was recorded for
    /// the same locations before.
    pub fn extend(&mut self, other: StorageChanges)
        ensures
            final(self)@ == old(self)@.union_prefer_right(other@),
    {
        let mut rest = other;
        let ghost all = other@;
        let mut left = rest.len();
        assert(self@ =~= old(self)@.union_prefer_right(all.remove_keys(rest@.dom())));
        while left > 0
            invariant
                left == rest@.dom().len(),
                rest@.dom().finite(),
                rest@.submap_of(all),
                self@ == old(self)@.union_prefer_right(all.remove_keys(rest@.dom())),
            decreases left,
        {
            let ghost before = self@;
            let ghost rest_before = rest@;
            match rest.pop() {
                Some(entry) => {
                    let ghost key = entry.0@;
                    self.insert(entry.0, entry.1);
                    proof {
                        assert(all.contains_key(key));
                        assert(rest@.dom() =~= rest_before.dom().remove(key));
                        assert(self@ =~= old(self)@.union_prefer_right(
                            all.remove_keys(rest@.dom()),
                        ));
                    }
                },
                None => {
                    assert(rest_before.dom().len() == 0);
                },
            }
            left = rest.len();
        }
        proof {
            assert(rest@.dom() =~= Set::<Seq<u8>>::empty());
            assert(all.remove_keys(rest@.dom()) =~= all);
        }
    }
}

impl Clone for StorageChanges {
    fn clone(&self) -> (copy: Self)
        ensures
            copy@ == self@,
    {
        let count = self.len();
        let ghost keys = self.location_seq();
        let mut copy = StorageChanges::new();
        let mut i: usize = 0;
        assert(copy@ =~= self@.restrict(keys.take(0).to_set()));
        while i < count
            invariant
                i <= count,
                count == keys.len(),
                keys == self.location_seq(),
                keys.to_set() == self@.dom(),
                copy@ == self@.restrict(keys.take(i as int).to_set()),
            decreases count - i,
        {
            let location = copy_vec(self.location_at(i));
            let value = match self.value_at(i) {
                Some(bytes) => Some(copy_vec(bytes)),
                None => None,
            };
            let ghost before = copy@;
            copy.insert(location, value);
            proof {
                assert(keys.take(i + 1) =~= keys.take(i as int).push(keys[i as int]));
                keys.take(i as int).lemma_push_to_set_commute(keys[i as int]);
                assert(copy@ =~= self@.restrict(keys.take(i + 1).to_set()));
            }
            i += 1;
        }
        proof {
            assert(keys.take(count as int) =~= keys);
            assert(self@.restrict(keys.to_set()) =~= self@);
        }
        copy
    }
}

/// The changes to one account. What is `None` does not change.
#[derive(Debug)]
pub struct ChangeEntry {
    /// The new balance.
    pub balance: Option<Balance>,
    /// The new code.
    pub code: Option<Vec<u8>>,
    /// The changes to the storage.
    pub storage: StorageChanges,
}

/// The contents of a [`ChangeEntry`].
pub struct ChangeEntryView {
    pub balance: Option<Balance>,
    pub code: Option<Seq<u8>>,
    pub storage: Map<Seq<u8>, Option<Seq<u8>>>,
}

impl ChangeEntryView {
    /// No changes.
    pub open spec fn empty() -> ChangeEntryView {
        ChangeEntryView { balance: None, code: None, storage: Map::empty() }
    }

    /// These changes followed by `later`: where `later` changes something,
    /// it prevails.
    pub open spec fn followed_by(self, later: ChangeEntryView) -> ChangeEntryView {
        ChangeEntryView {
            balance: if later.balance.is_some() {
                later.balance
            } else {
                self.balance
            },
            code: if later.code.is_some() {
                later.code
            } else {
                self.code
            },
            storage: self.storage.union_prefer_right(later.storage),
        }
    }
}

impl View for ChangeEntry {
    type V = ChangeEntryView;

    open spec fn view(&self) -> ChangeEntryView {
        ChangeEntryView {
            balance: self.balance,
            code: value_view(self.code),
            storage: self.storage@,
        }
    }
}

impl Default for ChangeEntry {
    /// No changes.
    fn default() -> (entry: Self)
        ensures
            entry@ == ChangeEntryView::empty(),
    {
        ChangeEntry { balance: None, code: None, storage: StorageChanges::new() }
    }
}

impl ChangeEntry {
    /// Applies `later` on top of these changes.
    pub fn apply(&mut self, later: ChangeEntry)
        ensures
            final(self)@ == old(self)@.followed_by(later@),
    {
        if later.balance.is_some() {
            self.balance = later.balance;
        }
        if later.code.is_some() {
            self.code = later.code;
        }
        self.storage.extend(later.storage);
    }
}

/// Changes to accounts, by account.
pub type ChangeSet = VecMap<AccountId, ChangeEntry>;

/// What a change set holds.
pub open spec fn change_set_view(changes: Map<AccountId, ChangeEntry>) -> Map<
    AccountId,
    ChangeEntryView,
> {
    changes.map_values(|entry: ChangeEntry| entry@)
}

/// The changes recorded for `account`, or no changes.
pub open spec fn changes_of(changes: Map<AccountId, ChangeEntryView>, account: AccountId) -> ChangeEntryView {
    if changes.contains_key(account) {
        changes[account]
    } else {
        ChangeEntryView::empty()
    }
}

/// The change set `first` followed by `later`, account by account.
pub open spec fn change_sets_then(
    first: Map<AccountId, ChangeEntryView>,
    later: Map<AccountId, ChangeEntryView>,
) -> Map<AccountId, ChangeEntryView> {
    Map::new(
        |account: AccountId| first.contains_key(account) || later.contains_key(account),
        |account: AccountId| changes_of(first, account).followed_by(changes_of(later, account)),
    )
}

/// A database of accounts.
pub trait AccountDb {
    /// Reads the value stored for `account` at `location`.
    fn get_storage(&self, account: &AccountId, location: &[u8]) -> Option<Vec<u8>>;

    /// Reads the code of `account`.
    fn get_code(&self, account: &AccountId) -> Vec<u8>;

    /// Reads the balance of `account`.
    fn get_balance(&self, account: &AccountId) -> Balance;

    /// Makes the given changes.
    fn commit(&mut self, change_set: ChangeSet);
}

/// The change that `changes` holds for `account` at `location`, if any:
/// the new value, or nothing where the value is removed.
pub open spec fn changed_storage(
    changes: Map<AccountId, ChangeEntryView>,
    account: AccountId,
    location: Seq<u8>,
) -> Option<Option<Seq<u8>>> {
    if changes_of(changes, account).storage.contains_key(location) {
        Some(changes_of(changes, account).storage[location])
    } else {
        None
    }
}

/// Changes on top of an account database. Reads see the changes; the
/// database underneath is not touched.
pub struct OverlayAccountDb<'a, D: AccountDb> {
    local: ChangeSet,
    underlying: &'a D,
}

impl<'a, D: AccountDb> OverlayAccountDb<'a, D> {
    /// The changes that the overlay holds.
    pub closed spec fn local(&self) -> Map<AccountId, ChangeEntryView> {
        change_set_view(self.local@)
    }

    /// The database underneath.
    pub closed spec fn underlying(&self) -> &'a D {
        self.underlying
    }

    /// An overlay without changes on top of `underlying`.
    pub fn new(underlying: &'a D) -> (overlay: OverlayAccountDb<'a, D>)
        ensures
            overlay.local() == Map::<AccountId, ChangeEntryView>::empty(),
            overlay.underlying() == underlying,
    {
        let overlay = OverlayAccountDb { local: VecMap::new(), underlying: underlying };
        assert(overlay.local() =~= Map::<AccountId, ChangeEntryView>::empty());
        overlay
    }

    /// The changes that the overlay holds.
    pub fn into_change_set(self) -> (changes: ChangeSet)
        ensures
            change_set_view(changes@) == self.local(),
    {
        self.local
    }

    fn take_entry(&mut self, account: &AccountId) -> (entry: ChangeEntry)
        ensures
            entry@ == changes_of(old(self).local(), *account),
            final(self).local() == old(self).local().remove(*account),
            final(self).underlying() == old(self).underlying(),
    {
        let entry = match self.local.remove(account) {
            Some(entry) => entry,
            None => ChangeEntry::default(),
        };
        assert(self.local() =~= old(self).local().remove(*account));
        entry
    }

    fn put_entry(&mut self, account: AccountId, entry: ChangeEntry)
        ensures
            final(self).local() == old(self).local().insert(account, entry@),
            final(self).underlying() == old(self).underlying(),
    {
        self.local.insert(account, entry);
        assert(self.local() =~= old(self).local().insert(account, entry@));
    }

    /// Records the new value of `location` in the storage of `account`, or
    /// its removal where `value` is `None`.
    pub fn set_storage(&mut self, account: &AccountId, location: Vec<u8>, value: Option<Vec<u8>>)
        ensures
            final(self).local() == old(self).local().insert(
                *account,
                (ChangeEntryView {
                    storage: changes_of(old(self).local(), *account).storage.insert(
                        location@,
                        value_view(value),
                    ),
                    ..changes_of(old(self).local(), *account)
                }),
            ),
            final(self).underlying() == old(self).underlying(),
    {
        let mut entry = self.take_entry(account);
        entry.storage.insert(location, value);
        self.put_entry(*account, entry);
        assert(old(self).local().remove(*account).insert(*account, entry@) =~= old(
            self,
        ).local().insert(*account, entry@));
    }

    /// Records the new code of `account`.
    pub fn set_code(&mut self, account: &AccountId, code: Vec<u8>)
        ensures
            final(self).local() == old(self).local().insert(
                *account,
                (ChangeEntryView { code: Some(code@), ..changes_of(old(self).local(), *account) }),
            ),
            final(self).underlying() == old(self).underlying(),
    {
        let mut entry = self.take_entry(account);
        entry.code = Some(code);
        self.put_entry(*account, entry);
        assert(old(self).local().remove(*account).insert(*account, entry@) =~= old(
            self,
        ).local().insert(*account, entry@));
    }

    /// Records the new balance of `account`.
    pub fn set_balance(&mut self, account: &AccountId, balance: Balance)
        ensures
            final(self).local() == old(self).local().insert(
                *account,
                (ChangeEntryView {
                    balance: Some(balance),
                    ..changes_of(old(self).local(), *account)
                }),
            ),
            final(self).underlying() == old(self).underlying(),
    {
        let mut entry = self.take_entry(account);
        entry.balance = Some(balance);
        self.put_entry(*account, entry);
        assert(old(self).local().remove(*account).insert(*account, entry@) =~= old(
            self,
        ).local().insert(*account, entry@));
    }

    /// Takes the given changes on top of those that the overlay holds.
    pub fn commit_changes(&mut self, change_set: ChangeSet)
        ensures
            final(self).local() == change_sets_then(
                old(self).local(),
                change_set_view(change_set@),
            ),
            final(self).underlying() == old(self).underlying(),
    {
        let mut rest = change_set;
        let ghost all = change_set_view(change_set@);
        let ghost start = self.local();
        let mut left = rest.len();
        proof {
            lemma_no_changes_change_nothing(start);
            assert(all.remove_keys(rest@.dom()) =~= Map::<AccountId, ChangeEntryView>::empty());
        }
        while left > 0
            invariant
                left == rest@.dom().len(),
                rest@.dom().finite(),
                forall|account: AccountId| #[trigger]
                    rest@.contains_key(account) ==> all.contains_key(account) && all[account]
                        == rest@[account]@,
                self.underlying() == old(self).underlying(),
                self.local() == change_sets_then(start, all.remove_keys(rest@.dom())),
            decreases left,
        {
            let ghost rest_before = rest@;
            let ghost local_before = self.local();
            match rest.pop() {
                Some(entry) => {
                    let ghost account = entry.0;
                    let ghost changed = entry.1@;
                    proof {
                        assert(rest_before.contains_key(account));
                        assert(all.contains_key(account) && all[account] == changed);
                        assert(!all.remove_keys(rest_before.dom()).contains_key(account));
                        assert(changes_of(local_before, account) == changes_of(start, account)) by {
                            lemma_followed_by_nothing(changes_of(start, account));
                        }
                    }
                    let mut value = self.take_entry(&entry.0);
                    value.apply(entry.1);
                    let ghost merged = value@;
                    self.put_entry(entry.0, value);
                    proof {
                        assert(merged == changes_of(start, account).followed_by(changed));
                        assert(self.local() =~= local_before.insert(account, merged));
                        assert(all.remove_keys(rest@.dom()) =~= all.remove_keys(
                            rest_before.dom(),
                        ).insert(account, changed));
                        assert(self.local() =~= change_sets_then(
                            start,
                            all.remove_keys(rest@.dom()),
                        ));
                    }
                },
                None => {
                    assert(rest_before.dom().len() == 0);
                },
            }
            left = rest.len();
        }
        proof {
            assert(rest@.dom() =~= Set::<AccountId>::empty());
            assert(all.remove_keys(rest@.dom()) =~= all);
        }
    }
}

/// Changes followed by no changes are the changes.
pub proof fn lemma_followed_by_nothing(changes: ChangeEntryView)
    ensures
        changes.followed_by(ChangeEntryView::empty()) == changes,
{
    assert(changes.storage.union_prefer_right(Map::<Seq<u8>, Option<Seq<u8>>>::empty())
        =~= changes.storage);
}

/// A change set followed by the empty change set is the change set.
pub proof fn lemma_no_changes_change_nothing(changes: Map<AccountId, ChangeEntryView>)
    ensures
        change_sets_then(changes, Map::<AccountId, ChangeEntryView>::empty()) == changes,
{
    assert forall|account: AccountId| changes.contains_key(account) implies #[trigger] change_sets_then(
        changes,
        Map::<AccountId, ChangeEntryView>::empty(),
    )[account] == changes[account] by {
        lemma_followed_by_nothing(changes[account]);
    }
    assert(change_sets_then(changes, Map::<AccountId, ChangeEntryView>::empty()) =~= changes);
}

impl<'a, D: AccountDb> AccountDb for OverlayAccountDb<'a, D> {
    /// Reads the value stored for `account` at `location`: what the overlay
    /// holds for it, else what the database underneath returns.
    fn get_storage(&self, account: &AccountId, location: &[u8]) -> (value: Option<Vec<u8>>)
        ensures
            match changed_storage(self.local(), *account, location@) {
                Some(change) => value_view(value) == change,
                None => call_ensures(
                    D::get_storage,
                    (self.underlying(), account, location),
                    value,
                ),
            },
    {
        match self.local.get(account) {
            Some(entry) => match entry.storage.get(location) {
                Some(value) => match value {
                    Some(bytes) => Some(copy_vec(bytes)),
                    None => None,
                },
                None => self.underlying.get_storage(account, location),
            },
            None => self.underlying.get_storage(account, location),
        }
    }

    /// Reads the code of `account`: what the overlay holds for it, else
    /// what the database underneath returns.
    fn get_code(&self, account: &AccountId) -> (code: Vec<u8>)
        ensures
            match changes_of(self.local(), *account).code {
                Some(change) => code@ == change,
                None => call_ensures(D::get_code, (self.underlying(), account), code),
            },
    {
        match self.local.get(account) {
            Some(entry) => match &entry.code {
                Some(code) => copy_vec(code),
                None => self.underlying.get_code(account),
            },
            None => self.underlying.get_code(account),
        }
    }

    /// Reads the balance of `account`: what the overlay holds for it, else
    /// what the database underneath returns.
    fn get_balance(&self, account: &AccountId) -> (balance: Balance)
        ensures
            match changes_of(self.local(), *account).balance {
                Some(change) => balance == change,
                None => call_ensures(D::get_balance, (self.underlying(), account), balance),
            },
    {
        match self.local.get(account) {
            Some(entry) => match entry.balance {
                Some(balance) => balance,
                None => self.underlying.get_balance(account),
            },
            None => self.underlying.get_balance(account),
        }
    }

    /// Takes the given changes on top of those that the overlay holds.
    fn commit(&mut self, change_set: ChangeSet)
        ensures
            final(self).local() == change_sets_then(
                old(self).local(),
                change_set_view(change_set@),
            ),
            final(self).underlying() == old(self).underlying(),
    {
        self.commit_changes(change_set);
    }
}

/// What became of an account when its balance was set.
#[derive(Clone, Copy, Debug, PartialEq, Eq, Structural)]
pub enum UpdateBalanceOutcome {
    /// The balance was set.
    Updated,
    /// The balance fell below what an account must hold: the account was
    /// removed, with everything that belongs to it.
    AccountKilled,
}

/// One write to the stored properties of an account.
#[derive(Debug, PartialEq, Eq)]
pub enum StorageWrite {
    /// Store the code.
    Code(Vec<u8>),
    /// Store the value at the location.
    Insert(Vec<u8>, Vec<u8>),
    /// Remove what is stored at the location.
    Remove(Vec<u8>),
}

/// What a write holds.
pub enum StorageWriteView {
    Code(Seq<u8>),
    Insert(Seq<u8>, Seq<u8>),
    Remove(Seq<u8>),
}

impl View for StorageWrite {
    type V = StorageWriteView;

    open spec fn view(&self) -> StorageWriteView {
        match self {
            StorageWrite::Code(code) => StorageWriteView::Code(code@),
            StorageWrite::Insert(location, value) => StorageWriteView::Insert(location@, value@),
            StorageWrite::Remove(location) => StorageWriteView::Remove(location@),
        }
    }
}

/// The write that makes the change at `location`.
pub open spec fn write_for(location: Seq<u8>, value: Option<Seq<u8>>) -> StorageWriteView {
    match value {
        Some(value) => StorageWriteView::Insert(location, value),
        None => StorageWriteView::Remove(location),
    }
}

/// The views of a list of writes.
pub open spec fn write_views(writes: Seq<StorageWrite>) -> Seq<StorageWriteView> {
    writes.map_values(|write: StorageWrite| write@)
}

/// Whether `writes` makes the changes of `changed` to code and storage:
/// the code first, if it changes, then one write for each location.
pub open spec fn writes_make(
    writes: Seq<StorageWriteView>,
    changed: ChangeEntryView,
    locations: Seq<Seq<u8>>,
) -> bool {
    let offset: int = if changed.code.is_some() {
        1
    } else {
        0
    };
    &&& writes.len() == offset + locations.len()
    &&& changed.code.is_some() ==> writes[0] == StorageWriteView::Code(changed.code.unwrap())
    &&& forall|i: int|
        0 <= i < locations.len() ==> #[trigger] writes[offset + i] == write_for(
            locations[i],
            changed.storage[locations[i]],
        )
}

/// The writes to make for the changes to one account, given what became of
/// the account when its new balance was set. Nothing is written for an
/// account that was removed, so that what was removed with it stays
/// removed. Otherwise the code is written first, if it changes, then every
/// change to the storage, once.
pub fn direct_commit_writes(changed: &ChangeEntry, outcome: Option<UpdateBalanceOutcome>) -> (writes:
    Vec<StorageWrite>)
    ensures
        outcome == Some(UpdateBalanceOutcome::AccountKilled) ==> writes@.len() == 0,
        outcome != Some(UpdateBalanceOutcome::AccountKilled) ==> writes_make(
            write_views(writes@),
            changed@,
            changed.storage.location_seq(),
        ),
{
    let mut writes: Vec<StorageWrite> = Vec::new();
    match outcome {
        Some(UpdateBalanceOutcome::AccountKilled) => {
            return writes;
        },
        _ => {},
    }
    match &changed.code {
        Some(code) => {
            writes.push(StorageWrite::Code(copy_vec(code)));
        },
        None => {},
    }
    let ghost offset = writes@.len() as int;
    let count = changed.storage.len();
    let ghost locations = changed.storage.location_seq();
    let mut i: usize = 0;
    while i < count
        invariant
            i <= count,
            count == locations.len(),
            locations == changed.storage.location_seq(),
            offset == (if changed@.code.is_some() {
                1int
            } else {
                0int
            }),
            writes@.len() == offset + i,
            changed@.code.is_some() ==> write_views(writes@)[0] == StorageWriteView::Code(
                changed@.code.unwrap(),
            ),
            forall|j: int|
                0 <= j < i ==> #[trigger] write_views(writes@)[offset + j] == write_for(
                    locations[j],
                    changed@.storage[locations[j]],
                ),
        decreases count - i,
    {
        let location = copy_vec(changed.storage.location_at(i));
        let ghost before = write_views(writes@);
        match changed.storage.value_at(i) {
            Some(value) => {
                writes.push(StorageWrite::Insert(location, copy_vec(value)));
            },
            None => {
                writes.push(StorageWrite::Remove(location));
            },
        }
        proof {
            assert(write_views(writes@) =~= before.push(
                write_for(locations[i as int], changed@.storage[locations[i as int]]),
            ));
        }
        i += 1;
    }
    writes
}

/// The balances after an account ends itself and leaves its funds to an
/// heir.
#[derive(Clone, Copy, Debug, PartialEq, Eq, Structural)]
pub struct SuicideTransfer {
    /// The new balance of the heir.
    pub inherent_balance: Balance,
    /// The new balance of the account that ends: nothing.
    pub balance: Balance,
}

/// Moves all funds of an account that ends itself to its heir: the heir
/// gets what the account held on top of its own, up to the largest balance
/// there is, and the account keeps nothing.
pub fn commit_suicide(residue: Balance, inherent_balance: Balance) -> (transfer: SuicideTransfer)
    ensures
        transfer.balance == 0,
        transfer.inherent_balance == (if residue + inherent_balance > Balance::MAX {
            Balance::MAX
        } else {
            (residue + inherent_balance) as Balance
        }),
{
    SuicideTransfer { inherent_balance: inherent_balance.saturating_add(residue), balance: 0 }
}

/// Tells whether what belongs to an account must be removed by hand after
/// its balance was set to nothing: that is so where setting the balance did
/// not remove the account.
pub fn purge_needed(outcome: UpdateBalanceOutcome) -> (needed: bool)
    ensures
        needed == (outcome == UpdateBalanceOutcome::Updated),
{
    match outcome {
        UpdateBalanceOutcome::Updated => true,
        UpdateBalanceOutcome::AccountKilled => false,
    }
}

/// Reading through an overlay that took a change set on top of its own
/// changes is reading the change set first, then the overlay as it was.
pub proof fn lemma_commit_is_read_first(
    first: Map<AccountId, ChangeEntryView>,
    later: Map<AccountId, ChangeEntryView>,
    account: AccountId,
    location: Seq<u8>,
)
    ensures
        ({
            let both = change_sets_then(first, later);
            &&& changes_of(both, account).balance == (if changes_of(later, account).balance.is_some() {
                changes_of(later, account).balance
            } else {
                changes_of(first, account).balance
            })
            &&& changes_of(both, account).code == (if changes_of(later, account).code.is_some() {
                changes_of(later, account).code
            } else {
                changes_of(first, account).code
            })
            &&& changes_of(both, account).storage.contains_key(location) == (changes_of(
                later,
                account,
            ).storage.contains_key(location) || changes_of(first, account).storage.contains_key(
                location,
            ))
            &&& changes_of(later, account).storage.contains_key(location) ==> changes_of(
                both,
                account,
            ).storage[location] == changes_of(later, account).storage[location]
            &&& !changes_of(later, account).storage.contains_key(location) && changes_of(
                first,
                account,
            ).storage.contains_key(location) ==> changes_of(both, account).storage[location]
                == changes_of(first, account).storage[location]
        }),
{
}

} // verus!
