use herdr_native::activity::{ActivityReportParams, ActivityState, ActivityTask, Nanos};
use herdr_native::api::{encode_response, App};

const MILLI: Nanos = 1_000_000;

fn report() -> ActivityReportParams {
    ActivityReportParams {
        source: "session-hygiene".into(),
        seq: 1,
        ttl_ms: 20000,
        omitted: 0,
        tasks: vec![ActivityTask {
            id: "task-a".into(),
            request_id: "build-a".into(),
            harness: "codex".into(),
            workspace: "canvas".into(),
            model: Some("sol".into()),
            effort: Some("high".into()),
            elapsed_seconds: Some(42),
            status: "running".into(),
            progress: "monitoring".into(),
        }],
    }
}

fn named(source: &str) -> ActivityReportParams {
    let mut named = report();
    named.source = source.into();
    named
}

const BOUNDS: &str = "activity requires a source, 1..120000ms TTL, and at most 100 tasks";
const TASKS: &str =
    "activity task ids must be unique; text must be bounded and contain no controls";

#[test]
fn activity_replacement_order_expiry_and_bounds() {
    let mut state = ActivityState::default();
    let now: Nanos = 5_000_000_000;
    assert!(state.report(report(), now).unwrap());
    let mut older = report();
    older.tasks.clear();
    assert!(!state.report(older.clone(), now).unwrap());
    assert_eq!(state.snapshot()[0].tasks.len(), 1);
    older.seq = 2;
    assert!(state.report(older, now).unwrap());
    assert!(state.snapshot().is_empty());
    let mut next = report();
    next.seq = 3;
    state.report(next, now).unwrap();
    state.expire(now + 20_000 * MILLI);
    assert!(state.snapshot().is_empty());
    assert!(state.next_expiry().is_none());
    let mut invalid = report();
    invalid.tasks[0].request_id = "escape\x1b[2J".into();
    assert!(state.report(invalid, now).is_err());
    let mut invalid = report();
    invalid.tasks.push(invalid.tasks[0].clone());
    assert!(state.report(invalid, now).is_err());
    let mut invalid = report();
    invalid.ttl_ms = 120001;
    assert!(state.report(invalid, now).is_err());
    let mut invalid = report();
    invalid.tasks = vec![invalid.tasks[0].clone(); 101];
    assert!(state.report(invalid, now).is_err());
    for i in 0..8 {
        let mut r = report();
        r.source = format!("s{i}");
        state.report(r, now).unwrap();
    }
    assert!(state.report(report(), now).is_err());
}

#[test]
fn activity_api_creates_no_native_resources_and_expires_on_metadata_deadline() {
    let mut app = App {
        activity: ActivityState::default(),
        agent_metadata_expiry: None,
        metadata_deadline: None,
    };
    let response = app.handle_activity_report("report".into(), report(), 7);
    let raw = encode_response(&response);
    assert!(raw.contains("\"changed\":true"));
    assert_eq!(app.agent_metadata_expiry, None);
    assert_eq!(app.activity.snapshot()[0].tasks[0].request_id, "build-a");
    let deadline = app.metadata_deadline.unwrap();
    assert_eq!(deadline, 7 + 20_000 * MILLI);
    app.activity.expire(deadline);
    assert!(app.activity.snapshot().is_empty());
}

#[test]
fn each_refused_report_says_why() {
    let mut state = ActivityState::default();
    for ttl_ms in [0, 120_001] {
        let mut bad = report();
        bad.ttl_ms = ttl_ms;
        assert_eq!(state.report(bad, 0), Err(BOUNDS));
    }
    assert_eq!(state.report(named(""), 0), Err(BOUNDS));
    assert_eq!(state.report(named(&"s".repeat(65)), 0), Err(BOUNDS));
    assert_eq!(state.report(named("a\u{85}"), 0), Err(BOUNDS));
    let mut bad = report();
    bad.tasks[0].id = String::new();
    assert_eq!(state.report(bad, 0), Err(TASKS));
    let mut bad = report();
    bad.tasks[0].effort = Some("x".repeat(257));
    assert_eq!(state.report(bad, 0), Err(TASKS));
    let mut bad = report();
    bad.tasks[0].model = Some("a\nb".into());
    assert_eq!(state.report(bad, 0), Err(TASKS));
    for i in 0..8 {
        assert_eq!(state.report(named(&format!("s{i}")), 0), Ok(true));
    }
    assert_eq!(
        state.report(named("ninth"), 0),
        Err("at most 8 activity sources are allowed")
    );
    assert_eq!(state.snapshot().len(), 8);
}

#[test]
fn reports_are_accepted_at_their_bounds() {
    let mut state = ActivityState::default();
    let mut wide = named(&"é".repeat(32));
    wide.ttl_ms = 120_000;
    wide.tasks[0].progress = "p".repeat(256);
    assert_eq!(state.report(wide, 1), Ok(true));
    let mut brief = named("brief");
    brief.ttl_ms = 1;
    brief.tasks = (0..100)
        .map(|i| {
            let mut task = brief.tasks[0].clone();
            task.id = format!("task-{i}");
            task
        })
        .collect();
    assert_eq!(state.report(brief, 1), Ok(true));
    assert_eq!(state.next_expiry(), Some(1 + MILLI));
}

#[test]
fn expired_sources_make_room() {
    let mut state = ActivityState::default();
    for i in 0..8 {
        state.report(named(&format!("s{i}")), 0).unwrap();
    }
    assert!(state.report(named("late"), 20_000 * MILLI - 1).is_err());
    assert_eq!(state.report(named("late"), 20_000 * MILLI), Ok(true));
    assert_eq!(state.snapshot().len(), 1);
}

#[test]
fn a_report_leaves_other_sources_alone() {
    let mut state = ActivityState::default();
    state.report(named("b"), 0).unwrap();
    state.report(named("a"), 0).unwrap();
    let mut changed = named("a");
    changed.seq = 2;
    changed.tasks.clear();
    changed.omitted = 4;
    assert_eq!(state.report(changed, 0), Ok(true));
    let sources = state.snapshot();
    assert_eq!(sources[0].source, "a");
    assert_eq!(sources[0].omitted, 4);
    assert!(sources[0].tasks.is_empty());
    assert_eq!(sources[1].source, "b");
    assert_eq!(sources[1].tasks, report().tasks);
}

#[test]
fn expiring_twice_is_expiring_once_at_the_later_moment() {
    let mut twice = ActivityState::default();
    let mut once = ActivityState::default();
    for state in [&mut twice, &mut once] {
        for (source, ttl_ms) in [("a", 1), ("b", 2), ("c", 3)] {
            let mut brief = named(source);
            brief.ttl_ms = ttl_ms;
            state.report(brief, 0).unwrap();
        }
    }
    twice.expire(MILLI);
    twice.expire(2 * MILLI);
    once.expire(2 * MILLI);
    assert_eq!(twice.snapshot(), once.snapshot());
    assert_eq!(once.snapshot().len(), 1);
    assert_eq!(once.next_expiry(), Some(3 * MILLI));
}

#[test]
fn snapshots_are_in_the_order_of_the_sources_bytes() {
    let mut state = ActivityState::default();
    for source in ["é", "z", "Z", "zz", "a"] {
        state.report(named(source), 0).unwrap();
    }
    let order: Vec<String> = state.snapshot().into_iter().map(|s| s.source).collect();
    assert_eq!(order, ["Z", "a", "z", "zz", "é"]);
}

#[test]
fn the_deadline_is_the_first_moment_at_which_anything_is_over() {
    let mut app = App {
        activity: ActivityState::default(),
        agent_metadata_expiry: Some(5),
        metadata_deadline: None,
    };
    app.handle_activity_report("a".into(), report(), 0);
    assert_eq!(app.metadata_deadline, Some(5));
    app.agent_metadata_expiry = Some(30_000 * MILLI);
    app.sync_agent_metadata_deadline();
    assert_eq!(app.metadata_deadline, Some(20_000 * MILLI));
}

#[test]
fn a_refused_report_is_answered_with_its_code_and_moves_no_deadline() {
    let mut app = App {
        activity: ActivityState::default(),
        agent_metadata_expiry: None,
        metadata_deadline: Some(9),
    };
    let mut bad = report();
    bad.ttl_ms = 0;
    let response = app.handle_activity_report("bad".into(), bad, 0);
    assert_eq!(
        encode_response(&response),
        format!("{{\"error\":{{\"code\":\"invalid_params\",\"message\":\"{BOUNDS}\"}},\"id\":\"bad\"}}")
    );
    assert_eq!(app.metadata_deadline, Some(9));
}

#[test]
fn what_is_held_stays_bounded() {
    let mut state = ActivityState::default();
    for i in 0..40u64 {
        let mut next = named(&format!("s{}", i % 13));
        next.seq = i;
        next.ttl_ms = 1 + i % 3;
        let _ = state.report(next, Nanos::from(i) * MILLI / 4);
        if i % 5 == 0 {
            state.expire(Nanos::from(i) * MILLI / 4);
        }
        assert!(state.snapshot().len() <= 8);
    }
}
