use zweiton::XorShift32;

#[test]
fn xorshift_sequence_from_engine_seed() {
    let mut rng = XorShift32::new(0xA5A5_C3C3);
    assert_eq!(rng.next_u32(), 0xA668_088D);
    assert_eq!(rng.next_u32(), 0x4846_9D11);
    assert_eq!(rng.next_u32(), 0xE77A_EC83);
}

#[test]
fn zero_seed_is_made_odd() {
    let mut a = XorShift32::new(0);
    let mut b = XorShift32::new(1);
    assert_eq!(a.next_u32(), 270369);
    assert_eq!(b.next_u32(), 270369);
    assert_eq!(a.next_u32(), 67634689);
    for _ in 0..10_000 {
        assert_ne!(a.next_u32(), 0);
    }
}
