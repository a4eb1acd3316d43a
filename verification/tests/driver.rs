use sat_visibility::driver::{FailurePolicy, Outcome, Phase, Scan};

fn drain(scan: &mut Scan, fails: &[(usize, u64)]) -> Vec<(usize, u64)> {
    let mut seen = Vec::new();
    while let Some(request) = scan.pending() {
        seen.push(request);
        assert!(seen.len() <= 1_000);
        if fails.contains(&request) {
            scan.report(Outcome::Failed);
        } else {
            scan.report(Outcome::Propagated);
        }
    }
    seen
}

#[test]
fn scan_visits_every_target_in_every_step() {
    let mut scan = Scan::new(3, 1, FailurePolicy::Abort);
    assert_eq!(scan.phase, Phase::Running);
    assert_eq!(scan.dropped, vec![false, false, false]);
    let seen = drain(&mut scan, &[]);
    assert_eq!(seen, vec![(0, 0), (1, 0), (2, 0), (0, 1), (1, 1), (2, 1)]);
    assert_eq!(scan.phase, Phase::Finished);
}

#[test]
fn scan_without_targets_is_finished() {
    let mut scan = Scan::new(0, 10, FailurePolicy::SkipTarget);
    assert_eq!(scan.phase, Phase::Finished);
    assert_eq!(scan.pending(), None);
    scan.report(Outcome::Propagated);
    assert_eq!(scan.phase, Phase::Finished);
}

#[test]
fn scan_with_one_step_visits_step_zero_only() {
    let mut scan = Scan::new(2, 0, FailurePolicy::Abort);
    assert_eq!(drain(&mut scan, &[]), vec![(0, 0), (1, 0)]);
    assert_eq!(scan.phase, Phase::Finished);
}

#[test]
fn failure_aborts_the_scan() {
    let mut scan = Scan::new(2, 5, FailurePolicy::Abort);
    let seen = drain(&mut scan, &[(1, 1)]);
    assert_eq!(seen, vec![(0, 0), (1, 0), (0, 1), (1, 1)]);
    assert_eq!(scan.phase, Phase::Aborted);
    assert_eq!(scan.pending(), None);
    assert_eq!(scan.dropped, vec![false, false]);
    scan.report(Outcome::Propagated);
    assert_eq!(scan.phase, Phase::Aborted);
    assert_eq!((scan.target, scan.step), (1, 1));
}

#[test]
fn failed_target_is_skipped_from_then_on() {
    let mut scan = Scan::new(3, 2, FailurePolicy::SkipTarget);
    let seen = drain(&mut scan, &[(1, 0), (2, 1)]);
    assert_eq!(seen, vec![(0, 0), (1, 0), (2, 0), (0, 1), (2, 1), (0, 2)]);
    assert_eq!(scan.phase, Phase::Finished);
    assert_eq!(scan.dropped, vec![false, true, true]);
}

#[test]
fn scan_ends_when_every_target_was_dropped() {
    let mut scan = Scan::new(2, 100, FailurePolicy::SkipTarget);
    let seen = drain(&mut scan, &[(0, 0), (1, 3)]);
    assert_eq!(seen, vec![(0, 0), (1, 0), (1, 1), (1, 2), (1, 3)]);
    assert_eq!(scan.phase, Phase::Finished);
    assert_eq!(scan.dropped, vec![true, true]);
}

#[test]
fn scan_makes_at_most_steps_times_targets_requests() {
    let mut scan = Scan::new(4, 24, FailurePolicy::SkipTarget);
    let seen = drain(&mut scan, &[(3, 7)]);
    assert_eq!(seen.len(), 4 * 25 - 17);
    assert!(seen.len() <= 4 * 25);
}
