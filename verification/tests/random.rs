use robots::random::Random;

#[test]
fn seed_1234() {
    let mut random = Random::new(1234);
    assert_eq!(random.next_u32(), 59566414);
    assert_eq!(random.next_u32(), 1997250508);
    assert_eq!(random.next_u32(), 148423250);
    assert_eq!(random.next_u32(), 533254358);
    assert_eq!(random.next_u32(), 982122076);
    assert_eq!(random.next_u32(), 165739424);
}

#[test]
fn next_u32_follows_the_recurrence() {
    let mut random = Random::new(1);
    assert_eq!(random.next_u32(), 48271);
    assert_eq!(random.next_u32(), 182605794);
    let mut zero = Random::new(0);
    assert_eq!(zero.next_u32(), 0);
    let mut top = Random::new(u32::MAX);
    assert_eq!(top.next_u32(), 48271);
}

#[test]
fn range_u16_stays_in_range() {
    let mut random = Random::new(1234);
    // 59566414 % 10 + 5
    assert_eq!(random.range_u16(5, 15), 9);
    // 1997250508 % 65535
    assert_eq!(random.range_u16(0, u16::MAX), 5848);
    for _ in 0..100 {
        let value = random.range_u16(100, 103);
        assert!((100..103).contains(&value));
    }
}

#[test]
fn default_starts_at_zero() {
    let mut random = Random::default();
    assert_eq!(random.next_u32(), 0);
    let mut copy = Random::new(7).clone();
    assert_eq!(copy.next_u32(), 7 * 48271);
}
