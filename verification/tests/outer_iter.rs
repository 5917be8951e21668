use grass::outer_iter::{check_done_outer_iter, every_n_steps, NIters, OuterIter};

#[test]
fn every_n_steps_gates_correctly() {
    for s in 0..=300u64 {
        let expected = s % 100 == 0;
        assert_eq!(every_n_steps(100, s), expected, "at step {s}");
    }
    assert!(!every_n_steps(0, 0));
    assert!(!every_n_steps(0, 7));
}

#[test]
fn outer_iterations_end_at_the_target() {
    let mut iter = OuterIter::default();
    let n = NIters(3);
    assert!(!check_done_outer_iter(&mut iter, n));
    assert!(!check_done_outer_iter(&mut iter, n));
    assert!(check_done_outer_iter(&mut iter, n));
    assert_eq!(iter.0, 3);
}
