use chain_map::hashmap::HashMap;
use chain_map::hashmap::DEFAULT_MAX_SIZE;

#[test]
fn create() {
    let hash_map: HashMap<i32> = HashMap::new();
    assert_eq!(0, hash_map.len());
    assert_eq!(DEFAULT_MAX_SIZE, hash_map.capacity());
}

#[test]
fn clear() {
    let mut hash_map: HashMap<i32> = HashMap::new();
    hash_map.insert("ten", 10);
    hash_map.insert("net", 9);
    hash_map.clear();
    assert_eq!(0, hash_map.len());
    assert_eq!(32, hash_map.capacity());
}

#[test]
fn insert_same_keys() {
    let mut hash_map: HashMap<i32> = HashMap::new();
    hash_map.insert("ten", 10);
    hash_map.insert("ten", 9);
    assert_eq!(Some(9), hash_map.get("ten"));
}

#[test]
fn get_different_keys() {
    let mut hash_map: HashMap<i32> = HashMap::new();
    hash_map.insert("ten", 10);
    hash_map.insert("net", 9);
    assert_eq!(Some(10), hash_map.get("ten"));
    assert_eq!(Some(9), hash_map.get("net"));
}

#[test]
fn get_non_existing_key() {
    let hash_map: HashMap<i32> = HashMap::new();
    assert_eq!(None, hash_map.get("lol"));
}

#[test]
fn contains_existing_key() {
    let mut hash_map: HashMap<i32> = HashMap::new();
    hash_map.insert("ten", 10);
    assert_eq!(true, hash_map.contains_key("ten"));
}

#[test]
fn contains_non_existing_key() {
    let hash_map: HashMap<i32> = HashMap::new();
    assert_eq!(false, hash_map.contains_key("-013"));
}

#[test]
fn remove_existing_key() {
    let mut hash_map: HashMap<i32> = HashMap::new();
    hash_map.insert("net", 9);
    assert_eq!(Some(9), hash_map.remove("net"));
}

#[test]
fn remove_key_twice() {
    let mut hash_map: HashMap<i32> = HashMap::new();
    hash_map.insert("ten", 10);
    assert_eq!(Some(10), hash_map.remove("ten"));
    assert_eq!(None, hash_map.remove("ten"));
}

#[test]
fn remove_non_existing_key() {
    let mut hash_map: HashMap<i32> = HashMap::new();
    assert_eq!(None, hash_map.remove(""));
}

#[test]
fn len_after_non_existing_remove() {
    let mut hash_map: HashMap<i32> = HashMap::new();
    assert_eq!(0, hash_map.len());
    hash_map.remove("key");
    assert_eq!(0, hash_map.len());
}

#[test]
fn len_after_existing_remove() {
    let mut hash_map: HashMap<i32> = HashMap::new();
    hash_map.insert("key", 5);
    assert_eq!(1, hash_map.len());
    hash_map.remove("key");
    assert_eq!(0, hash_map.len());
}

#[test]
fn capacity_before_expand() {
    let mut hash_map: HashMap<i32> = HashMap::new();
    for i in 0..23 {
        hash_map.insert(&format!("key{i}"), i);
    }
    assert_eq!(DEFAULT_MAX_SIZE, hash_map.capacity());
}

#[test]
fn capacity_after_expand() {
    let mut hash_map: HashMap<i32> = HashMap::new();
    for i in 0..24 {
        hash_map.insert(&format!("key{i}"), i);
    }
    assert_eq!(DEFAULT_MAX_SIZE * 2, hash_map.capacity());
}

#[test]
fn should_resize_if_more_than_fill_factor() {
    let mut hash_map: HashMap<usize> = HashMap::new();
    for i in 0..hash_map.capacity() {
        hash_map.insert(&format!("key{i}"), i);
    }
    assert_eq!(false, hash_map.should_resize());
    assert_eq!(DEFAULT_MAX_SIZE * 2, hash_map.capacity());
}

#[test]
fn should_resize_if_equals_fill_factor() {
    let mut hash_map: HashMap<usize> = HashMap::new();
    for i in 0..24 {
        hash_map.insert(&format!("key{i}"), i);
    }
    assert_eq!(DEFAULT_MAX_SIZE * 2, hash_map.capacity());
    assert_eq!(false, hash_map.should_resize());
}

#[test]
fn should_resize_if_less_than_fill_factor() {
    let mut hash_map: HashMap<usize> = HashMap::new();
    for i in 0..23 {
        hash_map.insert(&format!("key{i}"), i);
    }
    assert_eq!(false, hash_map.should_resize())
}
