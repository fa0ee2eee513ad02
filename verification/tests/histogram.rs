use cwv_markov::Histogram;

#[test]
fn single_increment_axes() {
    let mut h = Histogram::new();
    h.inc(5);
    let (xs, ys) = h.axes();
    assert_eq!(xs, vec![5]);
    assert_eq!(ys, vec![1]);
}

#[test]
fn double_increment_counts_two() {
    let mut h = Histogram::new();
    h.inc(3);
    h.inc(3);
    let (xs, ys) = h.axes();
    assert_eq!(xs, vec![3]);
    assert_eq!(ys, vec![2]);
}

#[test]
fn counts_never_decrease_and_bins_persist() {
    let mut h = Histogram::new();
    h.inc(2);
    h.inc(5);
    let (xs1, ys1) = h.axes();
    assert_eq!(xs1, vec![2, 5]);
    assert_eq!(ys1, vec![1, 1]);
    h.inc(2);
    let (xs2, ys2) = h.axes();
    assert_eq!(xs2, vec![2, 5]);
    assert_eq!(ys2, vec![2, 1]);
    for (a, b) in ys1.iter().zip(ys2.iter()) {
        assert!(b >= a);
    }
}

#[test]
fn empty_histogram_has_empty_axes() {
    let h = Histogram::new();
    let (xs, ys) = h.axes();
    assert!(xs.is_empty());
    assert!(ys.is_empty());
}

#[test]
fn with_capacity_starts_empty() {
    let h = Histogram::with_capacity(64);
    let (xs, ys) = h.axes();
    assert!(xs.is_empty());
    assert!(ys.is_empty());
}

#[test]
fn zero_bin_and_gap_bins() {
    let mut h = Histogram::new();
    h.inc(0);
    h.inc(7);
    let (xs, ys) = h.axes();
    assert_eq!(xs, vec![0, 7]);
    assert_eq!(ys, vec![1, 1]);
}
