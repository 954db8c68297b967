use io_test_utils::partial::PartialOp;
use quickcheck::Gen;

#[test]
fn shrink_limited_gives_smaller_positive_counts() {
    assert_eq!(
        PartialOp::Limited(10).shrink(),
        vec![PartialOp::Limited(5), PartialOp::Limited(8), PartialOp::Limited(9)]
    );
    for n in 2usize..200 {
        let candidates = PartialOp::Limited(n).shrink();
        assert!(!candidates.is_empty());
        for c in candidates {
            match c {
                PartialOp::Limited(k) => assert!(k > 0 && k < n),
                other => panic!("unexpected candidate {:?}", other),
            }
        }
    }
}

#[test]
fn shrink_of_one_and_other_variants_is_empty() {
    assert!(PartialOp::Limited(1).shrink().is_empty());
    assert!(PartialOp::Limited(0).shrink().is_empty());
    assert!(PartialOp::Unlimited.shrink().is_empty());
    assert!(PartialOp::Pending.shrink().is_empty());
}

#[test]
fn limited_from_counts_drops_zeros() {
    assert_eq!(
        PartialOp::limited_from_counts(&vec![0, 3, 0, 7]),
        vec![PartialOp::Limited(3), PartialOp::Limited(7)]
    );
    assert!(PartialOp::limited_from_counts(&vec![]).is_empty());
}

#[test]
fn from_draws_picks_each_variant() {
    assert_eq!(PartialOp::from_draws(0, 10, 99), PartialOp::Pending);
    assert_eq!(PartialOp::from_draws(1, 10, 99), PartialOp::Unlimited);
    assert_eq!(PartialOp::from_draws(2, 10, 99), PartialOp::Limited(1));
    assert_eq!(PartialOp::from_draws(4, 10, 13), PartialOp::Limited(5));
    assert_eq!(PartialOp::from_draws(3, 1, 13), PartialOp::Limited(1));
    assert_eq!(PartialOp::from_draws(3, 0, 13), PartialOp::Limited(1));
    assert_eq!(PartialOp::from_draws(3, usize::MAX, usize::MAX), PartialOp::Limited(2));
}

#[test]
fn arbitrary_limits_stay_below_size() {
    let mut g = Gen::new(10);
    let mut seen_limited = false;
    for _ in 0..500 {
        match PartialOp::arbitrary(&mut g) {
            PartialOp::Limited(n) => {
                seen_limited = true;
                assert!(n >= 1 && n < 10);
            }
            _ => {}
        }
    }
    assert!(seen_limited);
    let mut small = Gen::new(1);
    for _ in 0..50 {
        if let PartialOp::Limited(n) = PartialOp::arbitrary(&mut small) {
            assert_eq!(n, 1);
        }
    }
}
