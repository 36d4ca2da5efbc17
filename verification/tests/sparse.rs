use fulmen::sparse::{SparseArray, SparseSet};

#[derive(Debug, Clone, Copy, PartialEq, Eq, PartialOrd, Ord)]
struct TestStruct(pub u32);

type TestSparseSet = SparseSet<usize, TestStruct>;

fn sum_all(set: &TestSparseSet) -> Option<u32> {
    set.values().iter().map(|v| v.0).reduce(|acc, v| acc + v)
}

fn as_vec(set: &TestSparseSet) -> Vec<u32> {
    set.values().iter().map(|v| v.0).collect()
}

#[test]
fn new_sparse_set() {
    let set = TestSparseSet::new();
    assert!(set.is_empty());
}

#[test]
fn sparse_set_empty() {
    let mut set = TestSparseSet::new();
    assert!(set.is_empty());

    set.insert(2, TestStruct(2));
    assert!(!set.is_empty());

    set.clear();
    assert!(set.is_empty());
}

#[test]
fn sparse_set_contains() {
    let mut set = TestSparseSet::new();
    assert!(!set.contains(2));

    set.insert(2, TestStruct(2));
    assert!(set.contains(2));
}

#[test]
fn sparse_set_internals() {
    let mut set = TestSparseSet::new();

    // Empty
    assert_eq!(None, sum_all(&set));
    assert_eq!(0, set.values().len());
    assert_eq!(0, set.indices().len());
    assert_eq!(0, set.sparse_len());

    // After some insertions
    set.insert(4, TestStruct(4));
    set.insert(0, TestStruct(0));
    set.insert(1, TestStruct(1));

    assert_eq!(Some(2), set.dense_index(1));

    assert_eq!(Some(5), sum_all(&set));
    assert_eq!(5, set.sparse_len());
    assert_eq!(vec![4, 0, 1], as_vec(&set));
    assert_eq!([4, 0, 1], set.indices()[..]);

    // After some removals
    assert_eq!(None, set.remove(10));
    assert_eq!(Some(TestStruct(4)), set.remove(4));

    assert_eq!(Some(0), set.dense_index(1));

    assert_eq!(Some(1), sum_all(&set));
    assert_eq!(5, set.sparse_len());

    // The last value moved to the front
    assert_eq!(vec![1, 0], as_vec(&set));
    assert_eq!([1, 0], set.indices()[..]);
}

#[test]
fn sparse_set_insert_replaces_value() {
    let mut set = TestSparseSet::new();
    set.insert(3, TestStruct(1));
    set.insert(3, TestStruct(7));
    assert_eq!(1, set.len());
    assert_eq!(Some(&TestStruct(7)), set.get(3));
    assert_eq!(None, set.get(2));
}

#[test]
fn sparse_set_get_mut_and_get_or_insert_with() {
    let mut set = TestSparseSet::new();
    *set.get_or_insert_with(5, || TestStruct(10)) = TestStruct(11);
    assert_eq!(Some(&TestStruct(11)), set.get(5));
    // Present: the closure's value is not used
    assert_eq!(TestStruct(11), *set.get_or_insert_with(5, || TestStruct(99)));
    if let Some(v) = set.get_mut(5) {
        v.0 = 12;
    }
    assert_eq!(Some(&TestStruct(12)), set.get(5));
    assert!(set.get_mut(6).is_none());
    assert!(set.capacity() >= set.len());
}

#[test]
fn sparse_set_values_mut() {
    let mut set = TestSparseSet::with_capacity(4);
    set.insert(1, TestStruct(1));
    set.insert(2, TestStruct(2));
    for v in set.values_mut() {
        v.0 *= 10;
    }
    assert_eq!(Some(&TestStruct(10)), set.get(1));
    assert_eq!(Some(&TestStruct(20)), set.get(2));
}

#[test]
fn sparse_set_remove_then_insert_roundtrip() {
    let mut set = TestSparseSet::new();
    set.insert(0, TestStruct(0));
    set.insert(9, TestStruct(9));
    assert_eq!(Some(TestStruct(0)), set.remove(0));
    assert!(!set.contains(0));
    assert!(set.contains(9));
    assert_eq!(Some(0), set.dense_index(9));
    assert_eq!(None, set.remove(0));
}

#[test]
fn sparse_array_basics() {
    let mut array: SparseArray<u32, &str> = SparseArray::new();
    assert!(!array.contains(3));
    assert_eq!(None, array.get(3));
    array.insert(3, "three");
    assert!(array.contains(3));
    assert_eq!(Some(&"three"), array.get(3));
    if let Some(v) = array.get_mut(3) {
        *v = "drei";
    }
    assert_eq!(Some("drei"), array.remove(3));
    assert_eq!(None, array.remove(3));
    array.insert(1, "one");
    array.clear();
    assert!(!array.contains(1));
}
