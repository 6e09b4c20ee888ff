use sitcom::index::AppendIndex;
use sitcom::store::RecordStore;
use sitcom::types::{Error, RecordId};

fn id(n: u8) -> RecordId {
    let mut id = [0u8; 32];
    id[31] = n;
    id
}

#[test]
fn empty_store_holds_nothing() {
    let store: RecordStore<u32> = RecordStore::new();
    assert_eq!(store.len(), 0);
    assert_eq!(store.get(&id(1)), None);
    assert!(!store.contains(&id(1)));
}

#[test]
fn store_returns_what_was_inserted() {
    let mut store: RecordStore<u32> = RecordStore::new();
    assert_eq!(store.insert(id(1), 10), Ok(()));
    assert_eq!(store.insert(id(2), 20), Ok(()));
    assert_eq!(store.len(), 2);
    assert_eq!(store.get(&id(1)), Some(&10));
    assert_eq!(store.get(&id(2)), Some(&20));
    assert_eq!(store.get(&id(3)), None);
    assert!(store.contains(&id(2)));
}

#[test]
fn store_never_replaces_a_record() {
    let mut store: RecordStore<u32> = RecordStore::new();
    assert_eq!(store.insert(id(1), 10), Ok(()));
    assert_eq!(store.insert(id(1), 11), Err(Error::DuplicateIdentifier));
    assert_eq!(store.len(), 1);
    assert_eq!(store.get(&id(1)), Some(&10));
}

#[test]
fn index_is_empty_where_nothing_was_appended() {
    let index: AppendIndex<u64, u16> = AppendIndex::<u64, u16>::new();
    assert_eq!(index.get(1), Vec::<u16>::new());
}

#[test]
fn index_keeps_order_and_repetitions() {
    let mut index: AppendIndex<u64, u16> = AppendIndex::<u64, u16>::new();
    index.append(1, 30002);
    index.append(2, 30009);
    index.append(1, 30001);
    index.append(1, 30002);
    assert_eq!(index.get(1), vec![30002, 30001, 30002]);
    assert_eq!(index.get(2), vec![30009]);
    assert_eq!(index.get(3), Vec::<u16>::new());
}

#[test]
fn index_by_term_holds_identifiers() {
    let mut index: AppendIndex<u16, RecordId> = AppendIndex::<u16, RecordId>::new();
    index.append(12019, id(1));
    index.append(22019, id(2));
    index.append(12019, id(3));
    assert_eq!(index.get(12019), vec![id(1), id(3)]);
    assert_eq!(index.get(22019), vec![id(2)]);
    assert_eq!(index.get(12020), Vec::<RecordId>::new());
}

#[test]
fn store_tells_identifiers_of_one_slot_apart() {
    let mut store: RecordStore<u32> = RecordStore::new();
    let mut a = [0u8; 32];
    let mut b = [0u8; 32];
    a[8] = 1;
    b[8] = 2;
    assert_eq!(store.insert(a, 1), Ok(()));
    assert_eq!(store.insert(b, 2), Ok(()));
    assert_eq!(store.get(&a), Some(&1));
    assert_eq!(store.get(&b), Some(&2));
    assert_eq!(store.get(&[0u8; 32]), None);
    assert_eq!(store.insert(b, 3), Err(Error::DuplicateIdentifier));
    assert_eq!(store.len(), 2);
}

#[test]
fn store_takes_identifiers_with_high_bytes() {
    let mut store: RecordStore<u32> = RecordStore::new();
    assert_eq!(store.insert([0xFF; 32], 1), Ok(()));
    assert_eq!(store.get(&[0xFF; 32]), Some(&1));
    assert!(!store.contains(&[0xFE; 32]));
}
