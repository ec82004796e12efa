use std::io::Read;

use logshard::archive::Archive;
use logshard::date::DateKey;
use logshard::frame::frame_line;
use logshard::record::{parse_date, LineError};
use logshard::router::{Action, Fault, Phase, Target};
use logshard::run::shard_lines;

fn record(asctime: &str, message: &str) -> String {
    format!("{{\"asctime\": \"{}\", \"message\": \"{}\"}}", asctime, message)
}

fn day(day: u32) -> DateKey {
    DateKey::new(2021, 3, day).unwrap()
}

fn gunzip(bytes: &[u8]) -> String {
    let mut decoder = flate2::read::MultiGzDecoder::new(bytes);
    let mut out = Vec::new();
    decoder.read_to_end(&mut out).unwrap();
    String::from_utf8(out).unwrap()
}

fn joined(lines: &[String]) -> String {
    let mut text = String::new();
    for line in lines {
        text.push_str(line);
        text.push('\n');
    }
    text
}

fn position(actions: &[Action], wanted: Action) -> usize {
    actions.iter().position(|action| *action == wanted).unwrap()
}

#[test]
fn boundary_scenario() {
    let a = record("2021-03-01 00:00:00,000", "A");
    let b = record("2021-03-01 00:00:01,000", "B");
    let c = record("2021-03-02 00:00:00,000", "C");
    let run = shard_lines(&vec![a.clone(), b.clone(), c.clone()]).unwrap();
    assert_eq!(run.archive.lines_of(Target::Shard(day(1))), vec![a.clone(), b.clone()]);
    assert_eq!(run.archive.lines_of(Target::Shard(day(2))), vec![c.clone()]);
    assert_eq!(run.archive.lines_of(Target::Errors), Vec::<String>::new());
    assert_eq!(
        run.archive.targets(),
        vec![Target::Errors, Target::Shard(day(1)), Target::Shard(day(2))]
    );
    assert_eq!(
        run.actions,
        vec![
            Action::Open { date: day(1) },
            Action::Append { target: Target::Shard(day(1)), line: 0 },
            Action::Append { target: Target::Shard(day(1)), line: 1 },
            Action::Progress { date: day(1), count: 2 },
            Action::Evict { date: day(1) },
            Action::Open { date: day(2) },
            Action::Append { target: Target::Shard(day(2)), line: 2 },
            Action::Evict { date: day(2) },
            Action::Summary { lines: 3 },
        ]
    );
    let progress = position(&run.actions, Action::Progress { date: day(1), count: 2 });
    let b_routed = position(&run.actions, Action::Append { target: Target::Shard(day(1)), line: 1 });
    let c_routed = position(&run.actions, Action::Append { target: Target::Shard(day(2)), line: 2 });
    assert!(b_routed < progress);
    assert!(progress < c_routed);
    assert_eq!(gunzip(&run.archive.content_of(Target::Shard(day(1)))), joined(&[a, b]));
    assert_eq!(gunzip(&run.archive.content_of(Target::Shard(day(2)))), joined(&[c]));
}

#[test]
fn malformed_line_scenario() {
    let a = record("2021-03-01 00:00:00,000", "A");
    let bad = "{\"message\": \"no asctime\"}".to_string();
    let b = record("2021-03-01 00:00:01,000", "B");
    let c = record("2021-03-02 00:00:00,000", "C");
    let run = shard_lines(&vec![a.clone(), bad.clone(), b.clone(), c.clone()]).unwrap();
    assert_eq!(run.archive.lines_of(Target::Errors), vec![bad.clone()]);
    assert_eq!(run.archive.lines_of(Target::Shard(day(1))), vec![a, b]);
    assert_eq!(run.archive.lines_of(Target::Shard(day(2))), vec![c]);
    assert_eq!(
        run.archive.targets(),
        vec![Target::Errors, Target::Shard(day(1)), Target::Shard(day(2))]
    );
    assert_eq!(gunzip(&run.archive.content_of(Target::Errors)), joined(&[bad]));
    assert!(run.actions.contains(&Action::Report { fault: Fault::Line(LineError::MissingField), line: 1 }));
    assert_eq!(run.actions.last(), Some(&Action::Summary { lines: 3 }));
}

#[test]
fn empty_input_scenario() {
    let run = shard_lines(&Vec::new()).unwrap();
    assert_eq!(run.archive.targets(), vec![Target::Errors]);
    assert!(run.archive.has_target(Target::Errors));
    assert_eq!(run.archive.len(), 0);
    assert_eq!(run.archive.content_of(Target::Errors), Vec::<u8>::new());
    assert_eq!(run.archive.lines_of(Target::Errors), Vec::<String>::new());
    assert_eq!(run.actions, vec![Action::Summary { lines: 0 }]);
    assert_eq!(run.router.phase(), Phase::Done);
    assert_eq!(run.router.line_count(), 0);
}

#[test]
fn run_of_failing_lines_fills_only_the_error_target() {
    let lines = vec!["one".to_string(), "[2]".to_string(), "{}".to_string()];
    let run = shard_lines(&lines).unwrap();
    assert_eq!(run.archive.targets(), vec![Target::Errors]);
    assert_eq!(run.archive.lines_of(Target::Errors), lines);
    assert_eq!(gunzip(&run.archive.content_of(Target::Errors)), "one\n[2]\n{}\n");
    assert_eq!(run.actions.last(), Some(&Action::Summary { lines: 0 }));
    assert_eq!(run.router.current_date(), None);
}

fn mixed_input() -> Vec<String> {
    vec![
        record("2021-03-01 00:00:00,000", "A"),
        "garbage".to_string(),
        record("2021-03-02 10:00:00,000", "B"),
        record("2021-03-01 23:59:59,999", "C"),
        "{\"asctime\": \"soon\"}".to_string(),
        record("2021-03-03 00:00:00,000", "D"),
        record("2021-03-03 00:00:00,001", "E"),
        record("2021-03-01 12:00:00,000", "F"),
    ]
}

#[test]
fn every_line_lands_in_exactly_one_target() {
    let lines = mixed_input();
    let run = shard_lines(&lines).unwrap();
    assert_eq!(run.archive.len(), lines.len());
    let appends: Vec<Target> = run
        .actions
        .iter()
        .filter_map(|action| match action {
            Action::Append { target, .. } => Some(*target),
            _ => None,
        })
        .collect();
    let expected: Vec<Target> = lines
        .iter()
        .map(|line| match parse_date(line) {
            Ok(stamp) => Target::Shard(stamp.date_key()),
            Err(_) => Target::Errors,
        })
        .collect();
    assert_eq!(appends, expected);
    for line in &lines {
        let holders = run
            .archive
            .targets()
            .into_iter()
            .filter(|target| run.archive.lines_of(*target).contains(line))
            .count();
        assert_eq!(holders, 1, "{}", line);
    }
}

#[test]
fn shard_holds_the_lines_of_its_day_in_order() {
    let lines = mixed_input();
    let run = shard_lines(&lines).unwrap();
    for target in run.archive.targets() {
        let expected: Vec<String> = lines
            .iter()
            .filter(|line| match (parse_date(line), target) {
                (Ok(stamp), Target::Shard(date)) => stamp.date_key() == date,
                (Err(_), Target::Errors) => true,
                _ => false,
            })
            .cloned()
            .collect();
        assert_eq!(run.archive.lines_of(target), expected);
    }
    assert_eq!(
        run.archive.lines_of(Target::Shard(day(1))),
        vec![lines[0].clone(), lines[3].clone(), lines[7].clone()]
    );
    assert_eq!(run.archive.lines_of(Target::Shard(day(4))), Vec::<String>::new());
    assert!(!run.archive.has_target(Target::Shard(day(4))));
}

#[test]
fn content_decompresses_to_the_routed_lines_whatever_the_evictions() {
    let lines = mixed_input();
    let run = shard_lines(&lines).unwrap();
    let evictions = run
        .actions
        .iter()
        .filter(|action| **action == Action::Evict { date: day(1) })
        .count();
    assert_eq!(evictions, 3);
    for target in run.archive.targets() {
        let routed = run.archive.lines_of(target);
        assert_eq!(gunzip(&run.archive.content_of(target)), joined(&routed));
        let mut frames = Vec::new();
        for line in &routed {
            frames.extend(frame_line(line).unwrap());
        }
        assert_eq!(run.archive.content_of(target), frames);
    }
    let sorted = vec![lines[0].clone(), lines[3].clone(), lines[7].clone()];
    let once = shard_lines(&sorted).unwrap();
    assert_eq!(
        once.archive.content_of(Target::Shard(day(1))),
        run.archive.content_of(Target::Shard(day(1)))
    );
}

#[test]
fn archive_performs_the_actions_of_the_router() {
    let mut archive = Archive::new();
    assert_eq!(archive.targets(), vec![Target::Errors]);
    assert!(archive.perform(Action::Progress { date: day(1), count: 1 }, "x"));
    assert!(archive.perform(Action::Evict { date: day(1) }, "x"));
    assert!(archive.perform(Action::Summary { lines: 1 }, "x"));
    assert!(archive.perform(Action::Report { fault: Fault::Write, line: 0 }, "x"));
    assert_eq!(archive.targets(), vec![Target::Errors]);
    assert_eq!(archive.len(), 0);
    assert!(archive.perform(Action::Open { date: day(1) }, "x"));
    assert!(archive.perform(Action::Open { date: day(1) }, "x"));
    assert_eq!(archive.targets(), vec![Target::Errors, Target::Shard(day(1))]);
    assert_eq!(archive.len(), 0);
    assert!(archive.perform(Action::Append { target: Target::Shard(day(1)), line: 0 }, "x"));
    assert!(archive.append(Target::Shard(day(2)), "y"));
    assert!(archive.append(Target::Errors, "z"));
    archive.open(Target::Shard(day(3)));
    assert_eq!(archive.len(), 3);
    assert_eq!(
        archive.targets(),
        vec![Target::Errors, Target::Shard(day(1)), Target::Shard(day(2)), Target::Shard(day(3))]
    );
    assert_eq!(archive.lines_of(Target::Shard(day(1))), vec!["x".to_string()]);
    assert_eq!(archive.lines_of(Target::Shard(day(2))), vec!["y".to_string()]);
    assert_eq!(archive.lines_of(Target::Errors), vec!["z".to_string()]);
    assert_eq!(archive.content_of(Target::Shard(day(3))), Vec::<u8>::new());
    assert_eq!(archive.content_of(Target::Errors), frame_line("z").unwrap());
}
