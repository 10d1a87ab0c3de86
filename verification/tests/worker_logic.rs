//! The worker's decision pieces: the phase machine, the clock-aligned wait,
//! shutdown escalation, the notification plan, and delivery reactions.

use rocketlaunch_bot::config::Args;
use rocketlaunch_bot::config::BotConfig;
use rocketlaunch_bot::db::Store;
use rocketlaunch_bot::notify::apply_delivery;
use rocketlaunch_bot::notify::notification_plan;
use rocketlaunch_bot::notify::NotifyStep;
use rocketlaunch_bot::notify::PlannedNotification;
use rocketlaunch_bot::types::DeliveryStatus;
use rocketlaunch_bot::types::EstimatedDate;
use rocketlaunch_bot::types::Launch;
use rocketlaunch_bot::types::Location;
use rocketlaunch_bot::types::Pad;
use rocketlaunch_bot::types::Provider;
use rocketlaunch_bot::types::Vehicle;
use rocketlaunch_bot::worker::millis_until_next_minute;
use rocketlaunch_bot::worker::shutdown_signal;
use rocketlaunch_bot::worker::worker_step;
use rocketlaunch_bot::worker::ShutdownSignal;
use rocketlaunch_bot::worker::WorkerEvent;
use rocketlaunch_bot::worker::WorkerPhase;

fn sample_launch(id: u64, t0: Option<i64>) -> Launch {
    Launch {
        id,
        sort_date: 1_700_000_000,
        name: format!("Mission {}", id),
        provider: Provider { id: 1, name: "Provider".to_string(), slug: "provider".to_string() },
        vehicle: Vehicle {
            id: 2,
            name: "Vehicle".to_string(),
            company_id: 1,
            slug: "vehicle".to_string(),
        },
        pad: Pad {
            id: 3,
            name: "LC-1".to_string(),
            location: Location {
                id: 4,
                name: "Cape".to_string(),
                state: Some("FL".to_string()),
                state_name: Some("Florida".to_string()),
                country: "USA".to_string(),
                slug: "cape".to_string(),
            },
        },
        missions: vec![],
        mission_description: None,
        launch_description: "A launch".to_string(),
        t0,
        est_date: EstimatedDate { month: None, day: None, year: None, quarter: None },
        date_str: "TBD".to_string(),
        tags: vec![],
        slug: format!("launch-{}", id),
        quicktext: "".to_string(),
        suborbital: false,
        win_open: None,
        win_close: None,
        modified: 1_700_000_000,
    }
}

#[test]
fn worker_happy_cycle() {
    let mut p = WorkerPhase::Idle;
    for (event, expected) in [
        (WorkerEvent::CycleStarted, WorkerPhase::Fetching),
        (WorkerEvent::FetchSucceeded, WorkerPhase::Updating),
        (WorkerEvent::UpdateSucceeded, WorkerPhase::Notifying),
        (WorkerEvent::NotifyCompleted, WorkerPhase::Sleeping),
        (WorkerEvent::WaitElapsed, WorkerPhase::Idle),
    ] {
        p = worker_step(p, event);
        assert_eq!(p, expected);
    }
}

#[test]
fn worker_failures_reach_backoff_and_retry() {
    assert_eq!(worker_step(WorkerPhase::Fetching, WorkerEvent::FetchFailed), WorkerPhase::Backoff);
    assert_eq!(worker_step(WorkerPhase::Updating, WorkerEvent::UpdateFailed), WorkerPhase::Backoff);
    assert_eq!(worker_step(WorkerPhase::Notifying, WorkerEvent::NotifyAborted), WorkerPhase::Backoff);
    assert_eq!(worker_step(WorkerPhase::Backoff, WorkerEvent::WaitElapsed), WorkerPhase::Fetching);
}

#[test]
fn worker_cancellation_is_terminal() {
    assert_eq!(worker_step(WorkerPhase::Sleeping, WorkerEvent::CancelObserved), WorkerPhase::Terminal);
    assert_eq!(worker_step(WorkerPhase::Backoff, WorkerEvent::CancelObserved), WorkerPhase::Terminal);
    assert_eq!(worker_step(WorkerPhase::Terminal, WorkerEvent::CycleStarted), WorkerPhase::Terminal);
    assert_eq!(worker_step(WorkerPhase::Terminal, WorkerEvent::WaitElapsed), WorkerPhase::Terminal);
}

#[test]
fn minute_alignment_exact_values() {
    assert_eq!(millis_until_next_minute(0), 60000);
    assert_eq!(millis_until_next_minute(1), 59999);
    assert_eq!(millis_until_next_minute(59999), 1);
    assert_eq!(millis_until_next_minute(60000), 60000);
    assert_eq!(millis_until_next_minute(123_456), 56_544);
}

#[test]
fn shutdown_signals_escalate() {
    assert_eq!(shutdown_signal(1), ShutdownSignal::Graceful);
    assert_eq!(shutdown_signal(2), ShutdownSignal::Advisory);
    assert_eq!(shutdown_signal(3), ShutdownSignal::Force);
    assert_eq!(shutdown_signal(4), ShutdownSignal::Graceful);
    assert_eq!(shutdown_signal(5), ShutdownSignal::Advisory);
    assert_eq!(shutdown_signal(6), ShutdownSignal::Force);
}

#[test]
fn permanent_failure_unsubscribes_silently() {
    let mut store = Store::open_temporary("/tmp/rlbot_test_permanent").unwrap();
    store.subscribe(70).unwrap();
    store.subscribe(71).unwrap();
    let step = apply_delivery(&mut store, 70, 1, 500, DeliveryStatus::Permanent).unwrap();
    assert_eq!(step, NotifyStep::Continue);
    let rows = store.iter().unwrap();
    assert!(rows.iter().all(|(c, _)| *c != 70));
    assert!(rows.iter().any(|(c, _)| *c == 71));
}

#[test]
fn success_records_progress() {
    let mut store = Store::open_temporary("/tmp/rlbot_test_success").unwrap();
    store.subscribe(70).unwrap();
    let step = apply_delivery(&mut store, 70, 9, 86340, DeliveryStatus::Success).unwrap();
    assert_eq!(step, NotifyStep::Continue);
    let rows = store.iter().unwrap();
    assert!(rows.iter().any(|(c, p)| *c == 70 && p == &vec![(9u64, 86340i64)]));
}

#[test]
fn migration_outcome_moves_record() {
    let mut store = Store::open_temporary("/tmp/rlbot_test_migrated").unwrap();
    store.record_notification(70, 9, 100).unwrap();
    let step = apply_delivery(&mut store, 70, 9, 100, DeliveryStatus::Migrated(-70)).unwrap();
    assert_eq!(step, NotifyStep::Continue);
    let rows = store.iter().unwrap();
    assert!(rows.iter().all(|(c, _)| *c != 70));
    assert!(rows.iter().any(|(c, p)| *c == -70 && p == &vec![(9u64, 100i64)]));
}

#[test]
fn transient_failure_aborts_cycle_unchanged() {
    let mut store = Store::open_temporary("/tmp/rlbot_test_transient").unwrap();
    store.record_notification(70, 9, 100).unwrap();
    let step = apply_delivery(&mut store, 70, 9, 100, DeliveryStatus::Transient).unwrap();
    assert_eq!(step, NotifyStep::AbortCycle);
    let rows = store.iter().unwrap();
    assert!(rows.iter().any(|(c, p)| *c == 70 && p == &vec![(9u64, 100i64)]));
}

#[test]
fn end_to_end_first_cycle_notifies_then_waits_for_hour_tier() {
    let mut store = Store::open_temporary("/tmp/rlbot_test_e2e").unwrap();
    store.subscribe(100).unwrap();
    store.subscribe(200).unwrap();
    let now = 1_700_000_000;
    // One event, 23 h 59 m out.
    let t0 = now + 86340;
    let launches = vec![sample_launch(42, Some(t0))];

    let plan = notification_plan(&store, &launches, now).unwrap();
    let mut chats: Vec<i64> = plan.iter().map(|p| p.chat_id).collect();
    chats.sort();
    assert_eq!(chats, vec![100, 200]);
    for p in &plan {
        assert_eq!(p.launch_id, 42);
        assert_eq!(p.seconds_remaining, 86340);
        let step =
            apply_delivery(&mut store, p.chat_id, p.launch_id, p.seconds_remaining,
                DeliveryStatus::Success)
                .unwrap();
        assert_eq!(step, NotifyStep::Continue);
    }

    // Later cycles stay quiet until the remaining time reaches the hour tier.
    let plan2 = notification_plan(&store, &launches, t0 - 80000).unwrap();
    assert_eq!(plan2, Vec::<PlannedNotification>::new());
    let plan3 = notification_plan(&store, &launches, t0 - 3601).unwrap();
    assert_eq!(plan3, Vec::<PlannedNotification>::new());
    let plan4 = notification_plan(&store, &launches, t0 - 3600).unwrap();
    let mut chats4: Vec<i64> = plan4.iter().map(|p| p.chat_id).collect();
    chats4.sort();
    assert_eq!(chats4, vec![100, 200]);
    assert!(plan4.iter().all(|p| p.seconds_remaining == 3600));
}

#[test]
fn plan_skips_events_without_t0() {
    let mut store = Store::open_temporary("/tmp/rlbot_test_plan_no_t0").unwrap();
    store.subscribe(1).unwrap();
    let launches = vec![sample_launch(42, None)];
    let plan = notification_plan(&store, &launches, 1_700_000_000).unwrap();
    assert_eq!(plan, Vec::<PlannedNotification>::new());
}

#[test]
fn pad_describe_includes_state_name() {
    let l = sample_launch(1, None);
    assert_eq!(l.pad.describe(), "Cape, LC-1, Florida, USA");
    let mut pad = l.pad.clone();
    pad.location.state_name = None;
    assert_eq!(pad.describe(), "Cape, LC-1, USA");
}

#[test]
fn config_assembles_and_checks_admins() {
    let args = Args { config: "bot.yaml".to_string() };
    let bot = BotConfig { token: "SECRET-REDACTED".to_string(), admin_chats: vec![10, -20] };
    let cfg = args.get_config(bot);
    assert!(cfg.bot.is_admin(10));
    assert!(cfg.bot.is_admin(-20));
    assert!(!cfg.bot.is_admin(30));
}
