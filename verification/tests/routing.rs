use logshard::date::{DateKey, Timestamp};
use logshard::record::LineError;
use logshard::registry::Registry;
use logshard::router::{fallback, Action, Fault, Phase, Router, Target};

fn line(asctime: &str, message: &str) -> String {
    format!("{{\"asctime\": \"{}\", \"message\": \"{}\"}}", asctime, message)
}

fn day(day: u32) -> DateKey {
    DateKey::new(2021, 3, day).unwrap()
}

#[test]
fn registry_holds_one_day() {
    let mut registry = Registry::new();
    assert_eq!(registry.open_date(), None);
    assert!(!registry.evict(day(1)));
    assert!(registry.get_or_create(day(1)));
    assert_eq!(registry.open_date(), Some(day(1)));
    assert!(!registry.get_or_create(day(1)));
    assert!(!registry.evict(day(2)));
    assert_eq!(registry.open_date(), Some(day(1)));
    assert!(registry.evict(day(1)));
    assert_eq!(registry.open_date(), None);
    assert!(registry.get_or_create(day(2)));
    assert_eq!(registry.open_date(), Some(day(2)));
    assert!(registry.get_or_create(day(3)));
    assert_eq!(registry.open_date(), Some(day(3)));
    assert!(!registry.evict(day(2)));
    assert!(!registry.get_or_create(day(3)));
    assert!(registry.evict(day(3)));
    assert_eq!(registry.open_date(), None);
}

#[test]
fn route_read_routes_by_what_was_read() {
    let stamp = |day: u32, second: u32| Timestamp {
        date: DateKey { year: 2021, month: 3, day },
        hour: 0,
        minute: 0,
        second,
        nanosecond: 0,
    };
    let mut router = Router::new();
    assert_eq!(
        router.route_read(Ok(stamp(1, 0))),
        vec![Action::Open { date: day(1) }, Action::Append { target: Target::Shard(day(1)), line: 0 }]
    );
    assert_eq!(
        router.route_read(Err(LineError::BadFormat)),
        vec![
            Action::Report { fault: Fault::Line(LineError::BadFormat), line: 1 },
            Action::Append { target: Target::Errors, line: 1 },
        ]
    );
    assert_eq!(
        router.route_read(Ok(stamp(1, 1))),
        vec![Action::Append { target: Target::Shard(day(1)), line: 1 }]
    );
    assert_eq!(
        router.route_read(Ok(stamp(2, 0))),
        vec![
            Action::Progress { date: day(1), count: 2 },
            Action::Evict { date: day(1) },
            Action::Open { date: day(2) },
            Action::Append { target: Target::Shard(day(2)), line: 2 },
        ]
    );
    assert_eq!(router.current_date(), Some(day(2)));
    assert_eq!(router.open_date(), Some(day(2)));
    assert_eq!(router.line_count(), 3);
    assert_eq!(router.entry_count(), 1);
    assert_eq!(router.phase(), Phase::Streaming);
}

#[test]
fn router_starts_idle() {
    let router = Router::new();
    assert_eq!(router.phase(), Phase::Idle);
    assert_eq!(router.current_date(), None);
    assert_eq!(router.open_date(), None);
    assert_eq!(router.line_count(), 0);
    assert_eq!(router.entry_count(), 0);
    assert!(router.can_route());
}

#[test]
fn first_line_opens_its_shard() {
    let mut router = Router::new();
    let actions = router.route(&line("2021-03-01 00:00:00,000", "A"));
    assert_eq!(
        actions,
        vec![Action::Open { date: day(1) }, Action::Append { target: Target::Shard(day(1)), line: 0 }]
    );
    assert_eq!(router.phase(), Phase::Streaming);
    assert_eq!(router.current_date(), Some(day(1)));
    assert_eq!(router.open_date(), Some(day(1)));
    assert_eq!(router.line_count(), 1);
    assert_eq!(router.entry_count(), 1);
}

#[test]
fn same_day_only_appends() {
    let mut router = Router::new();
    router.route(&line("2021-03-01 00:00:00,000", "A"));
    let actions = router.route(&line("2021-03-01 00:00:01,000", "B"));
    assert_eq!(actions, vec![Action::Append { target: Target::Shard(day(1)), line: 1 }]);
    assert_eq!(router.line_count(), 2);
    assert_eq!(router.entry_count(), 2);
}

#[test]
fn new_day_reports_and_evicts_the_previous_one() {
    let mut router = Router::new();
    router.route(&line("2021-03-01 00:00:00,000", "A"));
    router.route(&line("2021-03-01 00:00:01,000", "B"));
    let actions = router.route(&line("2021-03-02 00:00:00,000", "C"));
    assert_eq!(
        actions,
        vec![
            Action::Progress { date: day(1), count: 2 },
            Action::Evict { date: day(1) },
            Action::Open { date: day(2) },
            Action::Append { target: Target::Shard(day(2)), line: 2 },
        ]
    );
    assert_eq!(router.current_date(), Some(day(2)));
    assert_eq!(router.open_date(), Some(day(2)));
    assert_eq!(router.line_count(), 3);
    assert_eq!(router.entry_count(), 1);
}

#[test]
fn day_that_recurs_is_opened_again_with_a_fresh_count() {
    let mut router = Router::new();
    router.route(&line("2021-03-01 00:00:00,000", "A"));
    router.route(&line("2021-03-02 00:00:00,000", "B"));
    let actions = router.route(&line("2021-03-01 00:00:02,000", "C"));
    assert_eq!(
        actions,
        vec![
            Action::Progress { date: day(2), count: 1 },
            Action::Evict { date: day(2) },
            Action::Open { date: day(1) },
            Action::Append { target: Target::Shard(day(1)), line: 2 },
        ]
    );
    assert_eq!(router.entry_count(), 1);
}

#[test]
fn line_without_date_is_diverted_and_changes_nothing() {
    let mut router = Router::new();
    router.route(&line("2021-03-01 00:00:00,000", "A"));
    let actions = router.route("{\"message\": \"no time\"}");
    assert_eq!(
        actions,
        vec![
            Action::Report { fault: Fault::Line(LineError::MissingField), line: 1 },
            Action::Append { target: Target::Errors, line: 1 },
        ]
    );
    assert_eq!(router.current_date(), Some(day(1)));
    assert_eq!(router.open_date(), Some(day(1)));
    assert_eq!(router.line_count(), 1);
    assert_eq!(router.entry_count(), 1);
    let after = router.route(&line("2021-03-01 00:00:05,000", "B"));
    assert_eq!(after, vec![Action::Append { target: Target::Shard(day(1)), line: 1 }]);
}

#[test]
fn each_line_error_is_reported_with_its_reason() {
    let cases = [
        ("oops", LineError::Decode),
        ("[]", LineError::NotAnObject),
        ("{}", LineError::MissingField),
        ("{\"asctime\": \"yesterday\"}", LineError::BadFormat),
    ];
    for (text, reason) in cases {
        let mut router = Router::new();
        let actions = router.route(text);
        assert_eq!(
            actions,
            vec![
                Action::Report { fault: Fault::Line(reason), line: 0 },
                Action::Append { target: Target::Errors, line: 0 },
            ]
        );
        assert_eq!(router.phase(), Phase::Streaming);
        assert_eq!(router.current_date(), None);
        assert_eq!(router.line_count(), 0);
    }
}

#[test]
fn drain_evicts_the_current_day_and_finish_sums_up() {
    let mut router = Router::new();
    router.route(&line("2021-03-01 00:00:00,000", "A"));
    router.route("broken");
    router.route(&line("2021-03-01 00:00:01,000", "B"));
    assert_eq!(router.drain(), vec![Action::Evict { date: day(1) }]);
    assert_eq!(router.phase(), Phase::Draining);
    assert_eq!(router.open_date(), None);
    assert!(!router.can_route());
    assert_eq!(router.finish(), vec![Action::Summary { lines: 2 }]);
    assert_eq!(router.phase(), Phase::Done);
    assert_eq!(router.line_count(), 2);
    assert!(!router.can_route());
}

#[test]
fn drain_of_an_idle_router_evicts_nothing() {
    let mut router = Router::new();
    assert_eq!(router.drain(), vec![]);
    assert_eq!(router.finish(), vec![Action::Summary { lines: 0 }]);
    assert_eq!(router.phase(), Phase::Done);
}

#[test]
fn failed_shard_append_is_diverted_to_the_error_target() {
    let failed = Action::Append { target: Target::Shard(day(1)), line: 7 };
    assert_eq!(
        fallback(failed),
        Some(vec![
            Action::Report { fault: Fault::Write, line: 7 },
            Action::Append { target: Target::Errors, line: 7 },
        ])
    );
}

#[test]
fn other_failures_are_fatal() {
    assert_eq!(fallback(Action::Append { target: Target::Errors, line: 7 }), None);
    assert_eq!(fallback(Action::Open { date: day(1) }), None);
    assert_eq!(fallback(Action::Evict { date: day(1) }), None);
    assert_eq!(fallback(Action::Progress { date: day(1), count: 3 }), None);
    assert_eq!(fallback(Action::Summary { lines: 3 }), None);
    assert_eq!(fallback(Action::Report { fault: Fault::Write, line: 3 }), None);
}
