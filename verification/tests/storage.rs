use subtensor_registration::storage::StorageMap;

#[test]
fn a_key_holds_one_value() {
    let mut map: StorageMap<Vec<u8>, u64> = StorageMap::new();
    assert_eq!(map.get(&vec![1, 2]), None);
    map.insert(vec![1, 2], 5);
    map.insert(vec![1], 6);
    map.insert(vec![1, 2], 7);
    assert_eq!(map.len(), 2);
    assert_eq!(map.get(&vec![1, 2]), Some(7));
    assert_eq!(map.get(&vec![1]), Some(6));
    assert_eq!(map.get(&vec![]), None);
}

#[test]
fn removed_keys_are_gone() {
    let mut map: StorageMap<(u16, [u8; 32]), u16> = StorageMap::new();
    map.insert((1, [1; 32]), 10);
    map.insert((2, [1; 32]), 20);
    map.insert((1, [2; 32]), 30);
    map.remove(&(1, [1; 32]));
    map.remove(&(9, [1; 32]));
    assert!(!map.contains_key(&(1, [1; 32])));
    assert_eq!(map.get(&(2, [1; 32])), Some(20));
    assert_eq!(map.get(&(1, [2; 32])), Some(30));
    assert_eq!(map.len(), 2);
    let entry = map.entry_at(0);
    assert_eq!(map.get(&entry.0), Some(entry.1));
}
