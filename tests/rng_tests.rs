use cube::rng::CubeRng;
use rand_core::RngCore;

#[test]
fn step_is_the_linear_congruential_step() {
    let mut r = CubeRng(0);
    assert_eq!(r.step(), 1);
    assert_eq!(r.step(), 6364136223846793006);
    let mut r = CubeRng(1);
    assert_eq!(r.step(), 6364136223846793006);
}

#[test]
fn random_in_range_and_empty_range() {
    let mut r = CubeRng(9);
    for _ in 0..200 {
        let v = r.random(3, 10);
        assert!((3..10).contains(&v));
    }
    let mut r = CubeRng(5);
    assert_eq!(r.random(4, 4), 4);
    assert_eq!(r.random(9, 2), 9);
    assert_eq!(r.0, 5);
}

#[test]
fn random_exact_value() {
    // state 0 steps to 1, whose low half is 1; 1 % 6 == 1
    let mut r = CubeRng(0);
    assert_eq!(r.random(1, 7), 2);
    let mut r = CubeRng(0);
    assert_eq!(r.random_range(10, 13), 11);
}

#[test]
fn random_range_stays_in_range() {
    let mut r = CubeRng(77);
    for _ in 0..500 {
        let v = r.random_range(19, 34);
        assert!((19..34).contains(&v));
    }
}

#[test]
fn fill_bytes_uses_eight_bytes_per_draw() {
    let mut r = CubeRng(0);
    let mut buf = [0u8; 10];
    r.fill_bytes(&mut buf);
    assert_eq!(&buf[..8], &1u64.to_le_bytes());
    assert_eq!(&buf[8..], &6364136223846793006u64.to_le_bytes()[..2]);
}

#[test]
fn rng_core_draws_match() {
    let mut a = CubeRng(11);
    let mut b = CubeRng(11);
    assert_eq!(a.next_u64(), b.step());
    assert_eq!(a.next_u32(), (b.step() & 0xffff_ffff) as u32);
}
