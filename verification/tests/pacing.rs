use sat_visibility::pacing::{judge_tick, DeadlinePolicy, TickVerdict};

#[test]
fn tick_within_budget_is_on_time() {
    assert_eq!(judge_tick(1_000_000, 999_999, 1_000_000, DeadlinePolicy::Abort), TickVerdict::OnTime);
    assert_eq!(judge_tick(1_000_000, 0, 1_250_000, DeadlinePolicy::Log), TickVerdict::OnTime);
}

#[test]
fn computation_that_fills_the_budget_misses_it() {
    assert_eq!(judge_tick(1_000_000, 1_000_000, 1_000_000, DeadlinePolicy::Abort), TickVerdict::Fatal);
    assert_eq!(judge_tick(1_000_000, 1_000_001, 2_000_000, DeadlinePolicy::Log), TickVerdict::Late);
}

#[test]
fn short_pause_misses_the_budget() {
    assert_eq!(judge_tick(1_000_000, 10, 999_999, DeadlinePolicy::Abort), TickVerdict::Fatal);
    assert_eq!(judge_tick(1_000_000, 10, 999_999, DeadlinePolicy::Log), TickVerdict::Late);
}

#[test]
fn zero_budget_is_never_kept() {
    assert_eq!(judge_tick(0, 0, 0, DeadlinePolicy::Log), TickVerdict::Late);
    assert_eq!(judge_tick(0, 0, u64::MAX, DeadlinePolicy::Abort), TickVerdict::Fatal);
}
