use sat_visibility::solver::{Iteration, Verdict, MAX_PASSES};

#[test]
fn iteration_starts_running() {
    let it = Iteration::new();
    assert_eq!(it.passes_made(), 0);
    assert_eq!(it.current(), Verdict::Continue);
    assert!(!it.converged());
}

#[test]
fn iteration_converges_on_first_settled_pass() {
    let mut it = Iteration::new();
    assert_eq!(it.record_pass(false), Verdict::Continue);
    assert_eq!(it.record_pass(false), Verdict::Continue);
    assert_eq!(it.record_pass(true), Verdict::Converged);
    assert_eq!(it.passes_made(), 3);
    assert!(it.converged());
}

#[test]
fn iteration_gives_up_after_ten_passes() {
    assert_eq!(MAX_PASSES, 10);
    let mut it = Iteration::new();
    for _ in 0..9 {
        assert_eq!(it.record_pass(false), Verdict::Continue);
    }
    assert_eq!(it.record_pass(false), Verdict::Exhausted);
    assert_eq!(it.passes_made(), 10);
    assert!(!it.converged());
}

#[test]
fn tenth_pass_may_still_converge() {
    let mut it = Iteration::new();
    for _ in 0..9 {
        it.record_pass(false);
    }
    assert_eq!(it.record_pass(true), Verdict::Converged);
    assert_eq!(it.passes_made(), 10);
}

#[test]
fn ended_iteration_ignores_further_passes() {
    let mut it = Iteration::new();
    it.record_pass(true);
    assert_eq!(it.record_pass(false), Verdict::Converged);
    assert_eq!(it.passes_made(), 1);
    let mut spent = Iteration::new();
    for _ in 0..25 {
        spent.record_pass(false);
    }
    assert_eq!(spent.current(), Verdict::Exhausted);
    assert_eq!(spent.passes_made(), 10);
    assert_eq!(spent.record_pass(true), Verdict::Exhausted);
}
