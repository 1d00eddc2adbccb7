use polkadot_consensus::inherents::{
    Inherent, InherentData, InherentError, InherentIdentifier, InherentsPool,
};

const TEST_INHERENT_0: InherentIdentifier = *b"testinh0";
const TEST_INHERENT_1: InherentIdentifier = *b"testinh1";
const TEST_INHERENT_2: InherentIdentifier = *b"testinh2";

#[test]
fn should_drain_inherents_to_given_data() {
    let mut pool = InherentsPool::default();
    let mut data = InherentData::new();
    data.put_data(TEST_INHERENT_0, &12u32).unwrap();
    pool.add(data);

    let mut data = InherentData::new();
    data.put_data(TEST_INHERENT_1, &12u32).unwrap();
    pool.add(data);

    let mut data = InherentData::new();
    data.put_data(TEST_INHERENT_1, &8u32).unwrap();
    data.put_data(TEST_INHERENT_2, &12u32).unwrap();

    pool.drain_to(&mut data);

    assert_eq!(data.get_data(&TEST_INHERENT_0).unwrap(), Some(12u32));
    assert_eq!(data.get_data(&TEST_INHERENT_1).unwrap(), Some(12u32));
    assert_eq!(data.get_data(&TEST_INHERENT_2).unwrap(), Some(12u32));

    // The pool should be empty now
    let mut data = InherentData::new();
    pool.drain_to(&mut data);
    assert_eq!(data.get_data::<u32>(&TEST_INHERENT_0).unwrap(), None);
    assert_eq!(data.get_data::<u32>(&TEST_INHERENT_1).unwrap(), None);
    assert_eq!(data.get_data::<u32>(&TEST_INHERENT_2).unwrap(), None);
}

#[test]
fn drain_returns_items_in_insertion_order_and_empties_the_pool() {
    let mut pool: InherentsPool<u32> = InherentsPool::default();
    pool.add(3);
    pool.add(1);
    pool.add(2);
    assert_eq!(pool.drain(), vec![3, 1, 2]);
    assert_eq!(pool.drain(), Vec::<u32>::new());
    pool.add(7);
    assert_eq!(pool.drain(), vec![7]);
}

#[test]
fn drain_of_a_fresh_pool_is_empty() {
    let mut pool: InherentsPool<u8> = InherentsPool::default();
    assert!(pool.drain().is_empty());
}

#[test]
fn put_data_refuses_a_second_value() {
    let mut data = InherentData::new();
    assert_eq!(data.put_data(TEST_INHERENT_0, &1u32), Ok(()));
    assert_eq!(data.put_data(TEST_INHERENT_0, &2u32), Err(InherentError::AlreadyExists));
    assert_eq!(data.get_data::<u32>(&TEST_INHERENT_0), Ok(Some(1)));
}

#[test]
fn replace_data_overwrites() {
    let mut data = InherentData::new();
    data.replace_data(TEST_INHERENT_0, &1u32);
    data.replace_data(TEST_INHERENT_0, &2u32);
    assert_eq!(data.get_data::<u32>(&TEST_INHERENT_0), Ok(Some(2)));
}

#[test]
fn later_pool_items_overwrite_earlier_ones() {
    let mut pool = InherentsPool::default();
    let mut first = InherentData::new();
    first.put_data(TEST_INHERENT_0, &1u32).unwrap();
    pool.add(first);
    let mut second = InherentData::new();
    second.put_data(TEST_INHERENT_0, &2u32).unwrap();
    pool.add(second);
    let mut target = InherentData::new();
    pool.drain_to(&mut target);
    assert_eq!(target.get_data::<u32>(&TEST_INHERENT_0), Ok(Some(2)));
}

#[test]
fn u32_is_written_little_endian() {
    assert_eq!(12u32.encode(), vec![12, 0, 0, 0]);
    assert_eq!(0x0102_0304u32.encode(), vec![4, 3, 2, 1]);
    assert_eq!(<u32 as Inherent>::decode(&[4, 3, 2, 1]), Some(0x0102_0304));
    assert_eq!(<u32 as Inherent>::decode(&[255, 255, 255, 255]), Some(u32::MAX));
}

#[test]
fn u32_of_the_wrong_length_cannot_be_decoded() {
    assert_eq!(<u32 as Inherent>::decode(&[1, 2, 3]), None);
    assert_eq!(<u32 as Inherent>::decode(&[1, 2, 3, 4, 5]), None);
}
