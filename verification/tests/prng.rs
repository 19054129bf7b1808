use turso_dst::prng::Prng;

#[test]
fn first_draw_from_zero() {
    let mut rng = Prng(0);
    assert_eq!(rng.next(), 0xe220a8397b1dcdaf);
}

#[test]
fn draws_follow_each_other() {
    let mut rng = Prng(0);
    rng.next();
    assert_eq!(rng.next(), 0x6e789e6aa1b965f4);
    assert_eq!(rng.next(), 0x06c45d188009454f);
}

#[test]
fn range_covers_both_ends() {
    let mut rng = Prng(1);
    let drawn: Vec<u64> = (0..10).map(|_| rng.range(0, 9)).collect();
    assert_eq!(drawn, vec![5, 9, 0, 5, 1, 8, 5, 3, 0, 0]);
    for _ in 0..1000 {
        let n = rng.range(7, 9);
        assert!(n >= 7 && n <= 9);
    }
    assert_eq!(rng.range(5, 5), 5);
}

#[test]
fn chance_extremes() {
    let mut rng = Prng(42);
    for _ in 0..200 {
        assert!(!rng.chance(0));
        assert!(rng.chance(1000));
    }
}
