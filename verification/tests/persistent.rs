use chain_vote::hash::Digest;
use chain_vote::persistent::{InsertError, PersistentMap, RemoveError};
use chain_vote::trie::Trie;

fn key(n: u32) -> Digest {
    Digest::digest_byteslice(&n.to_be_bytes())
}

/// Keys that agree in the bits the tree branches on: their first word.
fn colliding(n: u8) -> Digest {
    let mut bytes = [0u8; 32];
    bytes[7] = 5;
    bytes[31] = n;
    Digest::from_bytes(&bytes).unwrap()
}

#[test]
fn put_get_remove() {
    for (k, value1, value2) in [(0u8, 0u8, 0u8), (1, 2, 3), (255, 255, 0), (7, 7, 8)] {
        let key = Digest::digest_byteslice(&[k]);
        let storage = Trie::new();

        // first write
        let storage_new1 = storage.put(key, value1);
        assert_eq!(Some(&value1), storage_new1.get(&key));

        // overwriting value
        let storage_new2 = storage_new1.put(key, value2);
        assert_eq!(Some(&value2), storage_new2.get(&key));

        // removing value
        let storage_new3 = storage_new2.remove(&key);
        assert_eq!(None, storage_new3.get(&key));

        // removing non-existent value should not error
        let storage_new4 = storage_new3.remove(&key);
        assert!(storage_new4.is_empty());
        assert!(!storage_new4.contains(&key));
    }
}

#[test]
fn versions_of_a_map_stay_as_they_were() {
    let empty: PersistentMap<u32> = PersistentMap::new();
    assert!(empty.is_empty());
    let mut versions = vec![empty];
    for n in 0..200u32 {
        let next = versions[n as usize].insert(key(n), n * 10).unwrap();
        versions.push(next);
    }
    for (len, version) in versions.iter().enumerate() {
        assert_eq!(version.is_empty(), len == 0);
        for n in 0..200u32 {
            let expected = if (n as usize) < len { Some(n * 10) } else { None };
            assert_eq!(version.lookup(&key(n)).copied(), expected);
            assert_eq!(version.contains_key(&key(n)), expected.is_some());
        }
    }
    let full = &versions[200];
    assert_eq!(full.insert(key(7), 1).err(), Some(InsertError::EntryExists));
    let replaced = full.replace(&key(7), 1).unwrap();
    assert_eq!(replaced.lookup(&key(7)), Some(&1));
    assert_eq!(full.lookup(&key(7)), Some(&70));
    assert_eq!(full.replace(&key(1000), 1).err(), Some(RemoveError::KeyNotFound));
    assert_eq!(full.remove(&key(1000)).err(), Some(RemoveError::KeyNotFound));
    let mut shrinking = full.share();
    for n in 0..200u32 {
        shrinking = shrinking.remove(&key(n)).unwrap();
        assert_eq!(shrinking.lookup(&key(n)), None);
        if n < 199 {
            assert_eq!(shrinking.lookup(&key(199)), Some(&1990));
            assert!(!shrinking.is_empty());
        }
    }
    assert!(shrinking.is_empty());
    assert_eq!(full.lookup(&key(0)), Some(&0));
}

#[test]
fn keys_that_agree_in_every_branching_bit_share_a_leaf() {
    let mut map: PersistentMap<u8> = PersistentMap::new();
    for n in 0..5u8 {
        map = map.insert(colliding(n), n).unwrap();
    }
    map = map.insert(key(1), 100).unwrap();
    for n in 0..5u8 {
        assert_eq!(map.lookup(&colliding(n)), Some(&n));
    }
    assert_eq!(map.lookup(&colliding(9)), None);
    assert_eq!(map.insert(colliding(3), 0).err(), Some(InsertError::EntryExists));
    let map = map.replace(&colliding(3), 33).unwrap();
    let map = map.remove(&colliding(0)).unwrap();
    assert_eq!(map.lookup(&colliding(3)), Some(&33));
    assert_eq!(map.lookup(&colliding(0)), None);
    assert_eq!(map.lookup(&colliding(4)), Some(&4));
    assert_eq!(map.lookup(&key(1)), Some(&100));
    let mut rest = map;
    for n in 1..5u8 {
        rest = rest.remove(&colliding(n)).unwrap();
    }
    assert!(!rest.is_empty());
    assert!(rest.remove(&key(1)).unwrap().is_empty());
}
