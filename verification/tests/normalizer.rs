use tracedump::normalize::TimestampNormalizer;

#[test]
fn unique_timestamps_basic() {
    let mut n = TimestampNormalizer::new();
    assert_eq!(n.next(100), 100);
    assert_eq!(n.next(100), 102);
    assert_eq!(n.next(105), 105);
}

#[test]
fn gap_enforced_on_equal_inputs() {
    let mut n = TimestampNormalizer::new();
    assert_eq!(n.next(50), 50);
    assert_eq!(n.next(50), 52);
    assert_eq!(n.next(50), 54);
    assert_eq!(n.next(50), 56);
}

#[test]
fn identity_when_uniqueness_disabled() {
    let mut n = TimestampNormalizer::new();
    assert_eq!(n.apply(100, false), 100);
    assert_eq!(n.apply(100, false), 100);
    assert_eq!(n.apply(7, false), 7);
    assert_eq!(n.prev, 0);
}

#[test]
fn strictly_increasing_with_min_gap() {
    let inputs: Vec<u64> = vec![0, 0, 1, 3, 3, 3, 10, 11, 500, 500];
    let mut n = TimestampNormalizer::new();
    let mut outputs: Vec<u64> = Vec::new();
    for t in inputs {
        outputs.push(n.apply(t, true));
    }
    for w in outputs.windows(2) {
        assert!(w[1] >= w[0] + 2);
    }
}

#[test]
fn input_already_spaced_passes_through() {
    let mut n = TimestampNormalizer::new();
    assert_eq!(n.next(10), 10);
    assert_eq!(n.next(12), 12);
    assert_eq!(n.next(100), 100);
}
