use qqbot::cache::SimpleCache;

#[test]
fn cache_get_after_insert() {
    let mut c: SimpleCache<i32, &str, 2> = SimpleCache::new();
    assert_eq!(c.insert(1, "one"), None);
    assert_eq!(c.get(&1), Some(&"one"));
    assert_eq!(c.get(&2), None);
}

#[test]
fn cache_full_drops_its_greatest_key() {
    let mut c: SimpleCache<i32, i32, 2> = SimpleCache::new();
    c.insert(5, 50);
    c.insert(9, 90);
    assert_eq!(c.insert(7, 70), None);
    assert_eq!(c.get(&9), None);
    assert_eq!(c.get(&5), Some(&50));
    assert_eq!(c.get(&7), Some(&70));
}

#[test]
fn cache_full_reinsert_drops_another_key_first() {
    let mut c: SimpleCache<i32, i32, 2> = SimpleCache::new();
    c.insert(1, 10);
    c.insert(2, 20);
    assert_eq!(c.insert(1, 11), Some(10));
    assert_eq!(c.get(&2), None);
    assert_eq!(c.get(&1), Some(&11));
}

#[test]
fn cache_of_one_keeps_the_last_insert() {
    let mut c: SimpleCache<u64, u64, 1> = SimpleCache::new();
    c.insert(3, 7);
    c.insert(5, 9);
    assert_eq!(c.get(&3), None);
    assert_eq!(c.get(&5), Some(&9));
}

#[test]
fn cache_get_or_insert_with_keeps_an_existing_value() {
    let mut c: SimpleCache<i32, i32, 4> = SimpleCache::new();
    c.insert(1, 10);
    *c.get_or_insert_with(1, || 99) += 1;
    assert_eq!(c.get(&1), Some(&11));
    *c.get_or_insert_with(2, || 20) += 2;
    assert_eq!(c.get(&2), Some(&22));
}

#[test]
fn cache_remove_takes_the_value_out() {
    let mut c: SimpleCache<i32, i32, 4> = SimpleCache::new();
    c.insert(1, 10);
    assert_eq!(c.remove(&1), Some(10));
    assert_eq!(c.remove(&1), None);
    assert_eq!(c.get(&1), None);
}
