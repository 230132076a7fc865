use fixed_hash::HashMap;
use fixed_hash::HashSet;
use fixed_hash::NonRandomState;

#[test]
fn deterministic() {
    let mut a: HashSet<usize> = HashSet::new();
    a.insert(1);
    a.insert(2);
    a.insert(3);

    let mut b: HashSet<usize> = HashSet::new();
    b.insert(1);
    b.insert(2);
    b.insert(3);

    assert!(a.into_vec().into_iter().eq(b.into_vec().into_iter()));
}

#[test]
fn std_contrast() {
    for _ in (0..1000).chain(core::iter::once_with(|| panic!())).take_while(|_| {
        let mut a: std::collections::HashSet<usize> = std::collections::HashSet::new();
        a.insert(1);
        a.insert(2);
        a.insert(3);

        let mut b: std::collections::HashSet<usize> = std::collections::HashSet::new();
        b.insert(1);
        b.insert(2);
        b.insert(3);

        a.into_iter().eq(b.into_iter())
    }) {}
}

#[test]
fn map_deterministic() {
    let mut a: HashMap<u64, u64> = HashMap::new();
    let mut b: HashMap<u64, u64> = HashMap::new();
    for k in 0..100u64 {
        a.insert(k, k * 2);
        b.insert(k, k * 2);
    }
    assert!(a.into_vec().into_iter().eq(b.into_vec().into_iter()));
}

#[test]
fn order_independent_set_equality() {
    let a: HashSet<i32> = HashSet::from([1, 2, 3]);
    let b: HashSet<i32> = HashSet::from([3, 1, 2]);
    assert!(a == b);
}

#[test]
fn order_independent_map_equality() {
    let a: HashMap<i32, &str> = HashMap::from([(1, "one"), (2, "two"), (3, "three")]);
    let b: HashMap<i32, &str> = HashMap::from([(3, "three"), (1, "one"), (2, "two")]);
    assert!(a == b);
}

#[test]
fn set_round_trip() {
    let s: HashSet<u32> = HashSet::from([1, 2, 3]);
    let mut elems = s.into_vec();
    elems.sort();
    assert_eq!(elems, vec![1, 2, 3]);
}

#[test]
fn set_collapses_duplicates() {
    let s: HashSet<u32> = HashSet::from([1, 2, 1, 3, 2]);
    assert_eq!(s.len(), 3);
    let mut elems = s.into_vec();
    elems.sort();
    assert_eq!(elems, vec![1, 2, 3]);
}

#[test]
fn map_last_entry_wins() {
    let m: HashMap<u32, &str> = HashMap::from([(1, "a"), (2, "b"), (1, "c")]);
    assert_eq!(m.len(), 2);
    assert_eq!(m.get(&1), Some(&"c"));
    assert_eq!(m.get(&2), Some(&"b"));
}

#[test]
fn extend_matches_single_inserts() {
    let mut bulk: HashSet<u16> = HashSet::new();
    bulk.extend(vec![5, 9, 5, 2]);

    let mut single: HashSet<u16> = HashSet::new();
    single.insert(5);
    single.insert(9);
    single.insert(5);
    single.insert(2);

    assert!(bulk == single);
}

#[test]
fn map_extend_matches_single_inserts() {
    let mut bulk: HashMap<u16, u16> = HashMap::new();
    bulk.extend(vec![(5, 1), (9, 2), (5, 3)]);

    let mut single: HashMap<u16, u16> = HashMap::new();
    single.insert(5, 1);
    single.insert(9, 2);
    single.insert(5, 3);

    assert!(bulk == single);
    assert_eq!(bulk.get(&5), Some(&3));
}

#[test]
fn insert_then_remove() {
    let mut m: HashMap<u32, &str> = HashMap::new();
    m.insert(1, "keep");
    m.insert(7, "gone");
    let before = m.len();
    assert_eq!(m.remove(&7), Some("gone"));
    assert_eq!(m.get(&7), None);
    assert_eq!(m.len(), before - 1);
}

#[test]
fn set_insert_then_remove() {
    let mut s: HashSet<u32> = HashSet::new();
    assert!(s.insert(4));
    assert!(!s.insert(4));
    assert!(s.contains(&4));
    assert!(s.remove(&4));
    assert!(!s.contains(&4));
    assert!(!s.remove(&4));
    assert!(s.is_empty());
}

#[test]
fn map_into_keys_and_values() {
    let m: HashMap<u32, u32> = HashMap::from([(1, 10), (2, 20), (3, 30)]);
    let mut keys = m.into_keys();
    keys.sort();
    assert_eq!(keys, vec![1, 2, 3]);

    let m: HashMap<u32, u32> = HashMap::from([(1, 10), (2, 20), (3, 30)]);
    let mut values = m.into_values();
    values.sort();
    assert_eq!(values, vec![10, 20, 30]);

    let m: HashMap<u32, u32> = HashMap::from([(1, 10), (2, 20), (3, 30)]);
    let mut entries = m.into_vec();
    entries.sort();
    assert_eq!(entries, vec![(1, 10), (2, 20), (3, 30)]);
}

#[test]
fn equality_with_plain_container() {
    let mut plain: std::collections::HashSet<u32, NonRandomState> =
        std::collections::HashSet::with_hasher(NonRandomState::default());
    plain.insert(8);
    plain.insert(9);

    let wrapped: HashSet<u32> = HashSet::from([9, 8]);
    assert!(wrapped == plain);

    let mut plain_map: std::collections::HashMap<u32, u32, NonRandomState> =
        std::collections::HashMap::with_hasher(NonRandomState::default());
    plain_map.insert(8, 80);

    let wrapped_map: HashMap<u32, u32> = HashMap::from([(8, 80)]);
    assert!(wrapped_map == plain_map);
}

#[test]
fn constructors_and_clear() {
    let mut s: HashSet<u8> = HashSet::with_capacity(16);
    assert!(s.is_empty());
    s.insert(1);
    s.reserve(8);
    assert_eq!(s.len(), 1);
    s.clear();
    assert!(s.is_empty());

    let mut m: HashMap<u8, u8> = HashMap::with_capacity(16);
    assert!(m.is_empty());
    m.insert(1, 2);
    m.reserve(8);
    assert!(m.contains_key(&1));
    m.clear();
    assert!(m.is_empty());

    let d: HashMap<u8, u8> = HashMap::default();
    assert!(d.is_empty());
    let d: HashSet<u8> = HashSet::default();
    assert!(d.is_empty());
}

#[test]
fn clone_keeps_contents() {
    let s: HashSet<u32> = HashSet::from([1, 2, 3]);
    let c = s.clone();
    assert!(c == s);

    let m: HashMap<u32, &str> = HashMap::from([(1, "x"), (2, "y")]);
    let c = m.clone();
    assert!(c == m);
}

#[test]
fn from_iter_builds_contents() {
    let s: HashSet<u32> = HashSet::from_iter(vec![4, 4, 5]);
    assert_eq!(s.len(), 2);
    assert!(s.contains(&4));
    assert!(s.contains(&5));
    assert_eq!(s.get(&4), Some(&4));
    assert_eq!(s.get(&6), None);

    let m: HashMap<u32, u32> = HashMap::from_iter(vec![(4, 1), (4, 2)]);
    assert_eq!(m.len(), 1);
    assert_eq!(m.get(&4), Some(&2));
}

#[test]
fn empty_containers_compare_equal() {
    let a: HashSet<u32> = HashSet::new();
    let b: HashSet<u32> = HashSet::from([]);
    assert!(a == b);

    let a: HashMap<u32, u32> = HashMap::new();
    let b: HashMap<u32, u32> = HashMap::from([]);
    assert!(a == b);
}

#[test]
fn unequal_containers_compare_unequal() {
    let a: HashSet<u32> = HashSet::from([1, 2]);
    let b: HashSet<u32> = HashSet::from([1, 3]);
    assert!(a != b);

    let a: HashMap<u32, u32> = HashMap::from([(1, 10)]);
    let b: HashMap<u32, u32> = HashMap::from([(1, 11)]);
    assert!(a != b);
}

#[test]
fn into_values_keeps_duplicates() {
    let m: HashMap<u32, u32> = HashMap::from([(1, 7), (2, 7), (3, 8)]);
    let mut values = m.into_values();
    values.sort();
    assert_eq!(values, vec![7, 7, 8]);
}

#[test]
fn extend_copied_matches_extend() {
    let elems = vec![5u16, 9, 5, 2];
    let mut borrowed: HashSet<u16> = HashSet::new();
    borrowed.extend_copied(&elems);
    let mut owned: HashSet<u16> = HashSet::new();
    owned.extend(elems);
    assert!(borrowed == owned);
    assert_eq!(borrowed.len(), 3);
}

#[test]
fn map_extend_copied_matches_extend() {
    let entries = vec![(5u16, 1u16), (9, 2), (5, 3)];
    let mut borrowed: HashMap<u16, u16> = HashMap::new();
    borrowed.extend_copied(&entries);
    let mut owned: HashMap<u16, u16> = HashMap::new();
    owned.extend(entries);
    assert!(borrowed == owned);
    assert_eq!(borrowed.get(&5), Some(&3));
}
