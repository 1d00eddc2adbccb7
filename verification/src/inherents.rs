//! Inherent data that waits for the next block.
//!
//! Parts of a node produce inherent data at their own pace. The pool
//! collects what they produce until the block author drains it.

use vstd::prelude::*;
use crate::codec::{le_bytes, lemma_le_bytes_len, put_le};
use crate::primitives::{bytes_eq, copy_vec};
use crate::vec_map::{Key, VecMap};

verus! {

/// The name of one kind of inherent data.
pub type InherentIdentifier = [u8; 8];

impl Key for InherentIdentifier {
    fn same(&self, other: &Self) -> (same: bool) {
        bytes_eq(self, other)
    }
}

/// Why inherent data could not be stored or read.
#[derive(Clone, Copy, Debug, PartialEq, Eq, Structural)]
pub enum InherentError {
    /// Data is stored under the identifier already.
    AlreadyExists,
    /// What is stored under the identifier is no value of the type asked
    /// for.
    CannotDecode,
}

/// A value that can be stored as inherent data.
pub trait Inherent: Sized {
    /// The bytes that stand for the value.
    spec fn wire(&self) -> Seq<u8>;

    /// The value that the bytes stand for, if any.
    spec fn parse(bytes: Seq<u8>) -> Option<Self>;

    /// Whatever is written can be read back.
    proof fn lemma_round_trip(value: Self)
        ensures
            Self::parse(value.wire()) == Some(value),
    ;

    /// Writes the value.
    fn encode(&self) -> (bytes: Vec<u8>)
        ensures
            bytes@ == self.wire(),
    ;

    /// Reads a value.
    fn decode(bytes: &[u8]) -> (value: Option<Self>)
        ensures
            value == Self::parse(bytes@),
    ;
}

/// The number that four bytes spell, least significant first.
pub open spec fn le_value4(bytes: Seq<u8>) -> nat {
    bytes[0] as nat + 256 * (bytes[1] as nat) + 65536 * (bytes[2] as nat) + 16777216 * (
    bytes[3] as nat)
}

impl Inherent for u32 {
    open spec fn wire(&self) -> Seq<u8> {
        le_bytes(*self as nat, 4)
    }

    open spec fn parse(bytes: Seq<u8>) -> Option<u32> {
        if bytes.len() == 4 {
            Some(le_value4(bytes) as u32)
        } else {
            None
        }
    }

    proof fn lemma_round_trip(value: u32) {
        reveal_with_fuel(le_bytes, 5);
        lemma_le_bytes_len(value as nat, 4);
        let x = value as nat;
        let bytes = le_bytes(x, 4);
        assert(bytes[0] == (x % 256) as u8);
        assert(bytes[1] == ((x / 256) % 256) as u8);
        assert(bytes[2] == ((x / 256 / 256) % 256) as u8);
        assert(bytes[3] == ((x / 256 / 256 / 256) % 256) as u8);
        assert(x / 256 / 256 / 256 < 256);
    }

    fn encode(&self) -> (bytes: Vec<u8>) {
        let mut bytes: Vec<u8> = Vec::new();
        put_le(&mut bytes, *self as u64, 4);
        assert(bytes@ =~= le_bytes(*self as nat, 4));
        bytes
    }

    fn decode(bytes: &[u8]) -> (value: Option<u32>) {
        if bytes.len() != 4 {
            return None;
        }
        let low = bytes[0] as u32 + 256 * (bytes[1] as u32);
        let high = bytes[2] as u32 + 256 * (bytes[3] as u32);
        Some(low + 65536 * high)
    }
}

/// Inherent data of several kinds, one value per kind.
#[derive(Debug)]
pub struct InherentData {
    data: VecMap<InherentIdentifier, Vec<u8>>,
}

/// What a map of encoded values holds.
pub open spec fn encoded_views(data: Map<InherentIdentifier, Vec<u8>>) -> Map<
    InherentIdentifier,
    Seq<u8>,
> {
    data.map_values(|bytes: Vec<u8>| bytes@)
}

impl View for InherentData {
    type V = Map<InherentIdentifier, Seq<u8>>;

    closed spec fn view(&self) -> Map<InherentIdentifier, Seq<u8>> {
        encoded_views(self.data@)
    }
}

impl InherentData {
    /// No inherent data.
    pub fn new() -> (data: InherentData)
        ensures
            data@ == Map::<InherentIdentifier, Seq<u8>>::empty(),
    {
        let data = InherentData { data: VecMap::new() };
        assert(data@ =~= Map::<InherentIdentifier, Seq<u8>>::empty());
        data
    }

    /// Stores `inherent` under `identifier`, unless data is stored there.
    pub fn put_data<I: Inherent>(&mut self, identifier: InherentIdentifier, inherent: &I) -> (result:
        Result<(), InherentError>)
        ensures
            match result {
                Ok(()) => !old(self)@.contains_key(identifier) && final(self)@ == old(
                    self,
                )@.insert(identifier, inherent.wire()),
                Err(error) => error == InherentError::AlreadyExists && old(self)@.contains_key(
                    identifier,
                ) && final(self)@ == old(self)@,
            },
    {
        if self.data.contains_key(&identifier) {
            return Err(InherentError::AlreadyExists);
        }
        self.data.insert(identifier, inherent.encode());
        assert(self@ =~= old(self)@.insert(identifier, inherent.wire()));
        Ok(())
    }

    /// Stores `inherent` under `identifier`, in place of what is stored
    /// there.
    pub fn replace_data<I: Inherent>(&mut self, identifier: InherentIdentifier, inherent: &I)
        ensures
            final(self)@ == old(self)@.insert(identifier, inherent.wire()),
    {
        self.data.insert(identifier, inherent.encode());
        assert(self@ =~= old(self)@.insert(identifier, inherent.wire()));
    }

    /// The value stored under `identifier`, if any.
    pub fn get_data<I: Inherent>(&self, identifier: &InherentIdentifier) -> (result: Result<
        Option<I>,
        InherentError,
    >)
        ensures
            result == (if !self@.contains_key(*identifier) {
                Ok::<Option<I>, InherentError>(None)
            } else {
                match I::parse(self@[*identifier]) {
                    Some(value) => Ok(Some(value)),
                    None => Err(InherentError::CannotDecode),
                }
            }),
    {
        match self.data.get(identifier) {
            Some(bytes) => match I::decode(bytes.as_slice()) {
                Some(value) => Ok(Some(value)),
                None => Err(InherentError::CannotDecode),
            },
            None => Ok(None),
        }
    }

    /// Stores everything that `other` holds, in place of what is stored
    /// under the same identifiers.
    pub fn merge(&mut self, other: &InherentData)
        ensures
            final(self)@ == old(self)@.union_prefer_right(other@),
    {
        let count = other.data.len();
        let ghost keys = other.data.key_seq();
        let mut i: usize = 0;
        assert(self@ =~= old(self)@.union_prefer_right(other@.restrict(keys.take(0).to_set())));
        while i < count
            invariant
                i <= count,
                count == keys.len(),
                keys == other.data.key_seq(),
                keys.to_set() == other.data@.dom(),
                self@ == old(self)@.union_prefer_right(
                    other@.restrict(keys.take(i as int).to_set()),
                ),
            decreases count - i,
        {
            let identifier = other.data.key_at(i);
            let bytes = copy_vec(other.data.value_at(i));
            let ghost before = self@;
            self.data.insert(identifier, bytes);
            proof {
                assert(keys.take(i + 1) =~= keys.take(i as int).push(identifier));
                keys.take(i as int).lemma_push_to_set_commute(identifier);
                assert(other@.contains_key(identifier));
                assert(self@ =~= before.insert(identifier, other@[identifier]));
                assert(self@ =~= old(self)@.union_prefer_right(
                    other@.restrict(keys.take(i + 1).to_set()),
                ));
            }
            i += 1;
        }
        proof {
            assert(keys.take(count as int) =~= keys);
            assert(other@.restrict(keys.to_set()) =~= other@);
        }
    }
}

/// A pool that collects inherent data until the next block is made.
#[derive(Debug)]
pub struct InherentsPool<T> {
    data: Vec<T>,
}

impl<T> View for InherentsPool<T> {
    type V = Seq<T>;

    closed spec fn view(&self) -> Seq<T> {
        self.data@
    }
}

impl<T> Default for InherentsPool<T> {
    /// The empty pool.
    fn default() -> (pool: Self)
        ensures
            pool@ == Seq::<T>::empty(),
    {
        InherentsPool { data: Vec::new() }
    }
}

impl<T> InherentsPool<T> {
    /// Adds an item to the pool.
    pub fn add(&mut self, extrinsic: T)
        ensures
            final(self)@ == old(self)@.push(extrinsic),
    {
        self.data.push(extrinsic);
    }

    /// Takes everything out of the pool: the items that were added since
    /// the pool was last drained, in the order in which they were added.
    pub fn drain(&mut self) -> (items: Vec<T>)
        ensures
            items@ == old(self)@,
            final(self)@ == Seq::<T>::empty(),
    {
        let mut items: Vec<T> = Vec::new();
        std::mem::swap(&mut items, &mut self.data);
        items
    }
}

/// What a pool holds after the given items were added one by one.
pub open spec fn after_adding<T>(pool: Seq<T>, items: Seq<T>) -> Seq<T>
    decreases items.len(),
{
    if items.len() == 0 {
        pool
    } else {
        after_adding(pool, items.drop_last()).push(items.last())
    }
}

/// A pool that was drained and then given some items holds exactly those
/// items, in the order in which they were given; so that is what the next
/// drain returns.
pub proof fn lemma_drain_returns_what_was_added<T>(items: Seq<T>)
    ensures
        after_adding(Seq::<T>::empty(), items) == items,
    decreases items.len(),
{
    if items.len() > 0 {
        lemma_drain_returns_what_was_added(items.drop_last());
        assert(items.drop_last().push(items.last()) =~= items);
    } else {
        assert(items =~= Seq::<T>::empty());
    }
}

/// What `target` holds after the given data were merged into it one by one.
pub open spec fn merged(
    target: Map<InherentIdentifier, Seq<u8>>,
    items: Seq<Map<InherentIdentifier, Seq<u8>>>,
) -> Map<InherentIdentifier, Seq<u8>>
    decreases items.len(),
{
    if items.len() == 0 {
        target
    } else {
        merged(target, items.drop_last()).union_prefer_right(items.last())
    }
}

/// The views of a list of inherent data.
pub open spec fn data_views(items: Seq<InherentData>) -> Seq<Map<InherentIdentifier, Seq<u8>>> {
    items.map_values(|item: InherentData| item@)
}

impl InherentsPool<InherentData> {
    /// Drains the pool into `data`: what the pool holds is merged into it
    /// item by item, in the order in which the items were added.
    pub fn drain_to(&mut self, data: &mut InherentData)
        ensures
            final(self)@ == Seq::<InherentData>::empty(),
            final(data)@ == merged(old(data)@, data_views(old(self)@)),
    {
        let items = self.drain();
        let ghost views = data_views(items@);
        let mut i: usize = 0;
        assert(views.take(0) =~= Seq::<Map<InherentIdentifier, Seq<u8>>>::empty());
        while i < items.len()
            invariant
                i <= items.len(),
                views == data_views(items@),
                data@ == merged(old(data)@, views.take(i as int)),
            decreases items.len() - i,
        {
            proof {
                assert(views.take(i + 1).drop_last() =~= views.take(i as int));
                assert(views.take(i + 1).last() == items@[i as int]@);
            }
            data.merge(&items[i]);
            i += 1;
        }
        assert(views.take(items.len() as int) =~= views);
    }
}

} // verus!
