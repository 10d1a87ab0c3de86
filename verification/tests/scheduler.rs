//! The tiered threshold scheduler: the pure decision and the store-level
//! `due_subscribers` walk, on the spec's own numbers.

use rocketlaunch_bot::db::Store;
use rocketlaunch_bot::sched::due_tier;
use rocketlaunch_bot::sched::notify_tiers;

#[test]
fn tiers_are_day_hour_quarter() {
    assert_eq!(notify_tiers(), vec![86400, 3600, 900]);
}

#[test]
fn never_notified_above_all_tiers_not_due() {
    let tiers = notify_tiers();
    assert_eq!(due_tier(&tiers, None, 90000), None);
}

#[test]
fn never_notified_inside_day_tier_due_at_day() {
    let tiers = notify_tiers();
    assert_eq!(due_tier(&tiers, None, 86300), Some(86400));
}

#[test]
fn recorded_value_blocks_same_tier() {
    let tiers = notify_tiers();
    // After recording 86300 the day tier is covered; nothing matches while
    // the remaining time stays above the hour tier...
    assert_eq!(due_tier(&tiers, Some(86300), 80000), None);
    assert_eq!(due_tier(&tiers, Some(86300), 3601), None);
    // ...and the hour tier fires once it is reached.
    assert_eq!(due_tier(&tiers, Some(86300), 3600), Some(3600));
}

#[test]
fn coarse_poll_skipping_a_tier_matches_only_once() {
    let tiers = notify_tiers();
    // A coarse poll jumped from outside the day tier straight into the
    // quarter-hour tier: the day tier is the first unrecorded match.
    assert_eq!(due_tier(&tiers, None, 700), Some(86400));
    // Recording that delivery covers every tier at once.
    assert_eq!(due_tier(&tiers, Some(700), 600), None);
}

#[test]
fn past_events_still_match_first_tier() {
    let tiers = notify_tiers();
    assert_eq!(due_tier(&tiers, None, -50), Some(86400));
}

#[test]
fn empty_tier_list_never_due() {
    let tiers: Vec<i64> = vec![];
    assert_eq!(due_tier(&tiers, None, 10), None);
}

#[test]
fn threshold_monotonicity_through_store() {
    let mut store = Store::open_temporary("/tmp/rlbot_test_monotone").unwrap();
    store.subscribe(1).unwrap();
    let now = 1_700_000_000;
    let launch = 5u64;
    // 90000 s out: outside every tier.
    assert_eq!(store.due_subscribers(launch, now + 90000, now).unwrap(), Vec::<i64>::new());
    // 86300 s out: 100 s inside the day tier.
    assert_eq!(store.due_subscribers(launch, now + 86300, now).unwrap(), vec![1]);
    // Recording that value keeps the day tier from matching again while the
    // remaining time decreases toward, but not past, the hour tier.
    store.record_notification(1, launch, 86300).unwrap();
    assert_eq!(store.due_subscribers(launch, now + 80000, now).unwrap(), Vec::<i64>::new());
    assert_eq!(store.due_subscribers(launch, now + 3601, now).unwrap(), Vec::<i64>::new());
    assert_eq!(store.due_subscribers(launch, now + 3600, now).unwrap(), vec![1]);
}

#[test]
fn due_subscribers_separate_events() {
    let mut store = Store::open_temporary("/tmp/rlbot_test_due_events").unwrap();
    store.subscribe(2).unwrap();
    let now = 1_700_000_000;
    store.record_notification(2, 5, 86000).unwrap();
    // Progress for event 5 says nothing about event 6.
    assert_eq!(store.due_subscribers(6, now + 86000, now).unwrap(), vec![2]);
    assert_eq!(store.due_subscribers(5, now + 80000, now).unwrap(), Vec::<i64>::new());
}

#[test]
fn wall_clock_variants_agree_with_explicit_time() {
    let mut store = Store::open_temporary("/tmp/rlbot_test_wall_clock").unwrap();
    store.subscribe(8).unwrap();
    let now = chrono::Utc::now().timestamp();
    // 100 s inside the day tier: due by the wall clock.
    let t0 = now + 86300;
    assert_eq!(store.get_unnotified(4, t0).unwrap(), vec![8]);
    store.set_notified(8, 4, t0).unwrap();
    // The recorded seconds-remaining covers the day tier.
    assert_eq!(store.get_unnotified(4, t0).unwrap(), Vec::<i64>::new());
    let rows = store.iter().unwrap();
    let (_, pairs) = rows.iter().find(|(c, _)| *c == 8).unwrap();
    assert_eq!(pairs.len(), 1);
    assert_eq!(pairs[0].0, 4);
    // Allow for the moments between the calls above.
    assert!(86290 <= pairs[0].1 && pairs[0].1 <= 86300);
    // Far outside every tier: not due.
    assert_eq!(store.get_unnotified(6, now + 90000).unwrap(), Vec::<i64>::new());
}

#[test]
fn due_subscribers_lists_every_due_chat() {
    let mut store = Store::open_temporary("/tmp/rlbot_test_due_many").unwrap();
    store.subscribe(1).unwrap();
    store.subscribe(2).unwrap();
    store.subscribe(-3).unwrap();
    let now = 2_000_000;
    let mut ids = store.due_subscribers(9, now + 1000, now).unwrap();
    ids.sort();
    assert_eq!(ids, vec![-3, 1, 2]);
}
