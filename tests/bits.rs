use dns_zones_builder::bits::{
    flip_off_left_u128, flip_off_left_u32, flip_off_right_u128, flip_off_right_u32,
    flip_on_left_u128, flip_on_left_u32, flip_on_right_u128, flip_on_right_u32,
};

#[test]
fn flip_on_sets_runs_of_bits() {
    let mut g: u32 = 0;
    assert!(flip_on_left_u32(&mut g, 8));
    assert_eq!(g, 0xff00_0000);
    assert!(flip_on_right_u32(&mut g, 4));
    assert_eq!(g, 0xff00_000f);
    assert!(flip_on_left_u32(&mut g, 0));
    assert_eq!(g, 0xff00_000f);
    assert!(flip_on_right_u32(&mut g, 32));
    assert_eq!(g, u32::MAX);
    assert!(!flip_on_left_u32(&mut g, 33));
    let mut h: u128 = 0;
    assert!(flip_on_left_u128(&mut h, 1));
    assert_eq!(h, 1u128 << 127);
    assert!(flip_on_right_u128(&mut h, 64));
    assert_eq!(h, (1u128 << 127) | u64::MAX as u128);
    assert!(!flip_on_right_u128(&mut h, 129));
    assert_eq!(h, (1u128 << 127) | u64::MAX as u128);
}

#[test]
fn flip_off_clears_runs_of_bits() {
    let mut g: u32 = u32::MAX;
    assert!(flip_off_left_u32(&mut g, 8));
    assert_eq!(g, 0x00ff_ffff);
    assert!(flip_off_right_u32(&mut g, 8));
    assert_eq!(g, 0x00ff_ff00);
    assert!(flip_off_right_u32(&mut g, 0));
    assert_eq!(g, 0x00ff_ff00);
    assert!(flip_off_left_u32(&mut g, 32));
    assert_eq!(g, 0);
    assert!(!flip_off_left_u32(&mut g, 40));
    let mut h: u128 = u128::MAX;
    assert!(flip_off_right_u128(&mut h, 120));
    assert_eq!(h, 0xffu128 << 120);
    assert!(flip_off_left_u128(&mut h, 4));
    assert_eq!(h, 0x0fu128 << 120);
    assert!(flip_off_right_u128(&mut h, 128));
    assert_eq!(h, 0);
}
