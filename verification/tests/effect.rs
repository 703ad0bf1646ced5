use usagi::effect::Xorshift32;

#[test]
fn xorshift_matches_the_reference_step() {
    let mut r = Xorshift32::new(1);
    let mut x: u32 = 1;
    for _ in 0..5 {
        x ^= x << 13;
        x ^= x >> 17;
        x ^= x << 5;
        assert_eq!(r.next_u32(), x);
    }
}

#[test]
fn zero_seed_is_replaced_and_never_yields_zero() {
    let mut a = Xorshift32::new(0);
    let mut b = Xorshift32::new(1);
    for _ in 0..100 {
        let v = a.next_u32();
        assert_ne!(v, 0);
        assert_eq!(v, b.next_u32());
    }
}

#[test]
fn first_value_from_seed_one_is_known() {
    let mut r = Xorshift32::new(1);
    assert_eq!(r.next_u32(), 270369);
}
