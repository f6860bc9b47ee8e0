use qqbot::random::{fill_bytes_via_next, MyRandomProvider};

#[test]
fn words_follow_the_multiplier() {
    let mut r = MyRandomProvider::new(7);
    assert_eq!(r.next_u64(), 7);
    assert_eq!(r.next_u64(), 1272484480936570867);
    assert_eq!(r.next_u32(), 3906784719);
}

#[test]
fn fill_uses_a_u32_for_four_bytes_or_fewer() {
    let mut r = MyRandomProvider::new(1);
    let mut dest = [0u8; 10];
    fill_bytes_via_next(&mut r, &mut dest);
    assert_eq!(dest, [1, 0, 0, 0, 0, 0, 0, 0, 181, 253]);
}

#[test]
fn fill_uses_a_u64_for_more_than_four_bytes() {
    let mut r = MyRandomProvider::new(3);
    let mut dest = [0u8; 13];
    r.fill_bytes(&mut dest);
    assert_eq!(dest, [3, 0, 0, 0, 0, 0, 0, 0, 31, 249, 155, 7, 98]);
}

#[test]
fn fill_of_nothing_draws_nothing() {
    let mut r = MyRandomProvider::new(5);
    let mut dest = [0u8; 0];
    r.fill_bytes(&mut dest);
    assert_eq!(r.next_u64(), 5);
}
