//! The shard router: what is done for each line, and at the end.
//!
//! The router is a state machine. It is given one line at a time and answers
//! with the actions to perform, in order; it never touches a target itself.

use crate::date::{DateKey, Timestamp};
use crate::record::{line_timestamp, parse_date, LineError};
use crate::registry::Registry;
use vstd::prelude::*;

verus! {

/// Where a line is appended.
#[derive(Clone, Copy, Debug, PartialEq, Eq, Structural)]
pub enum Target {
    /// The target of one day.
    Shard(DateKey),
    /// The one target for lines that could not be routed.
    Errors,
}

/// Why a line is reported.
#[derive(Clone, Copy, Debug, PartialEq, Eq, Structural)]
pub enum Fault {
    /// The line has no date.
    Line(LineError),
    /// The line has a date, but appending it to the day's target failed.
    Write,
}

/// One thing to do, among those the router asks for.
#[derive(Clone, Copy, Debug, PartialEq, Eq, Structural)]
pub enum Action {
    /// Tell that the line is diverted, and why. `line` is the number of
    /// lines routed before it.
    Report { fault: Fault, line: u64 },
    /// Tell that the day is complete, with the number of lines routed to it
    /// since it became current.
    Progress { date: DateKey, count: u64 },
    /// Flush and close the handle of the day.
    Evict { date: DateKey },
    /// Open the target of the day for appending, creating it if need be.
    Open { date: DateKey },
    /// Append the line, as one frame of its own, to the target. `line` is
    /// the number of lines routed before it.
    Append { target: Target, line: u64 },
    /// Tell that the run is over, with the number of lines routed.
    Summary { lines: u64 },
}

/// Where the router stands in a run.
#[derive(Clone, Copy, Debug, PartialEq, Eq, Structural)]
pub enum Phase {
    /// No line was seen yet.
    Idle,
    /// At least one line was seen.
    Streaming,
    /// The input is exhausted and the summary is still owed.
    Draining,
    /// The run is over.
    Done,
}

/// The mathematical state of a [`Router`].
pub struct RouterState {
    pub phase: Phase,
    /// The day of the last line that was routed.
    pub current: Option<DateKey>,
    /// The day whose handle is open.
    pub open: Option<DateKey>,
    /// The number of lines routed.
    pub lines: nat,
    /// The number of lines routed to `current` since it became current.
    pub entries: nat,
}

impl RouterState {
    /// The state before the first line.
    pub open spec fn initial() -> RouterState {
        RouterState { phase: Phase::Idle, current: None, open: None, lines: 0, entries: 0 }
    }

    /// What holds of every state that a run reaches: while lines are taken,
    /// the open handle is that of the current day; afterwards none is open.
    pub open spec fn wf(self) -> bool {
        &&& self.entries <= self.lines <= u64::MAX
        &&& self.current is None ==> self.lines == 0
        &&& self.current is Some ==> self.entries >= 1
        &&& self.current matches Some(date) ==> date.wf()
        &&& match self.phase {
            Phase::Idle => self.current is None && self.open is None,
            Phase::Streaming => self.open == self.current,
            Phase::Draining | Phase::Done => self.open is None,
        }
    }

    /// Whether lines are still taken.
    pub open spec fn accepting(self) -> bool {
        self.phase == Phase::Idle || self.phase == Phase::Streaming
    }
}

/// The target for what was read from a line: the shard of its day, or the
/// error target where no timestamp was read.
pub open spec fn read_target(read: Result<Timestamp, LineError>) -> Target {
    match read {
        Ok(stamp) => Target::Shard(stamp.date),
        Err(_) => Target::Errors,
    }
}

/// The target a line belongs to.
pub open spec fn line_target(line: Seq<char>) -> Target {
    read_target(line_timestamp(line))
}

/// What is done when a line of day `date` arrives and another day is
/// current: the day that ends is reported and its handle released.
pub open spec fn crossing_actions(s: RouterState, date: DateKey) -> Seq<Action> {
    match s.current {
        Some(previous) if previous != date => seq![
            Action::Progress { date: previous, count: s.entries as u64 },
            Action::Evict { date: previous },
        ],
        _ => seq![],
    }
}

/// What is done to have the handle of `date` open: nothing where the day is
/// current already.
pub open spec fn opening_actions(s: RouterState, date: DateKey) -> Seq<Action> {
    if s.current == Some(date) {
        seq![]
    } else {
        seq![Action::Open { date }]
    }
}

/// The actions for a line from which `read` was read, in the order in
/// which they are performed.
pub open spec fn read_actions(s: RouterState, read: Result<Timestamp, LineError>) -> Seq<Action> {
    match read {
        Err(reason) => seq![
            Action::Report { fault: Fault::Line(reason), line: s.lines as u64 },
            Action::Append { target: Target::Errors, line: s.lines as u64 },
        ],
        Ok(stamp) => crossing_actions(s, stamp.date) + opening_actions(s, stamp.date) + seq![
            Action::Append { target: Target::Shard(stamp.date), line: s.lines as u64 },
        ],
    }
}

/// The state after a line from which `read` was read. A line without a
/// timestamp leaves the current day and the counts as they are.
pub open spec fn read_state(s: RouterState, read: Result<Timestamp, LineError>) -> RouterState {
    match read {
        Err(_) => RouterState { phase: Phase::Streaming, ..s },
        Ok(stamp) => RouterState {
            phase: Phase::Streaming,
            current: Some(stamp.date),
            open: Some(stamp.date),
            lines: s.lines + 1,
            entries: if s.current == Some(stamp.date) {
                s.entries + 1
            } else {
                1
            },
        },
    }
}

/// The actions for one line, in the order in which they are performed.
pub open spec fn route_actions(s: RouterState, line: Seq<char>) -> Seq<Action> {
    read_actions(s, line_timestamp(line))
}

/// The state after one line.
pub open spec fn route_state(s: RouterState, line: Seq<char>) -> RouterState {
    read_state(s, line_timestamp(line))
}

/// The actions at the end of the input: the current day's handle, if there
/// is one, is released.
pub open spec fn drain_actions(s: RouterState) -> Seq<Action> {
    match s.current {
        Some(date) => seq![Action::Evict { date }],
        None => seq![],
    }
}

/// The state once the input is exhausted.
pub open spec fn drain_state(s: RouterState) -> RouterState {
    RouterState { phase: Phase::Draining, open: None, ..s }
}

/// The actions that close a run.
pub open spec fn finish_actions(s: RouterState) -> Seq<Action> {
    seq![Action::Summary { lines: s.lines as u64 }]
}

/// The state after a run.
pub open spec fn finish_state(s: RouterState) -> RouterState {
    RouterState { phase: Phase::Done, ..s }
}

/// The working state of a run.
#[derive(Debug)]
pub struct Router {
    phase: Phase,
    current: Option<DateKey>,
    registry: Registry,
    lines: u64,
    entries: u64,
}

impl View for Router {
    type V = RouterState;

    closed spec fn view(&self) -> RouterState {
        RouterState {
            phase: self.phase,
            current: self.current,
            open: self.registry@,
            lines: self.lines as nat,
            entries: self.entries as nat,
        }
    }
}

impl Router {
    /// A router before its first line.
    pub fn new() -> (router: Router)
        ensures
            router@ == RouterState::initial(),
            router@.wf(),
    {
        Router { phase: Phase::Idle, current: None, registry: Registry::new(), lines: 0, entries: 0 }
    }

    /// Where the router stands.
    pub fn phase(&self) -> (phase: Phase)
        ensures
            phase == self@.phase,
    {
        self.phase
    }

    /// The day of the last line that was routed.
    pub fn current_date(&self) -> (date: Option<DateKey>)
        ensures
            date == self@.current,
    {
        self.current
    }

    /// The day whose handle is open.
    pub fn open_date(&self) -> (date: Option<DateKey>)
        ensures
            date == self@.open,
    {
        self.registry.open_date()
    }

    /// The number of lines routed so far.
    pub fn line_count(&self) -> (count: u64)
        ensures
            count == self@.lines,
    {
        self.lines
    }

    /// The number of lines routed to the current day since it became
    /// current.
    pub fn entry_count(&self) -> (count: u64)
        ensures
            count == self@.entries,
    {
        self.entries
    }

    /// Whether another line can be taken: the run is not drained and the
    /// count of lines has room.
    pub fn can_route(&self) -> (ready: bool)
        ensures
            ready == (self@.accepting() && self@.lines < u64::MAX),
    {
        (self.phase == Phase::Idle || self.phase == Phase::Streaming) && self.lines < u64::MAX
    }

    /// Takes one line and returns what is to be done for it, in order: the
    /// line is decoded, and routed by what was read from it.
    pub fn route(&mut self, line: &str) -> (actions: Vec<Action>)
        requires
            old(self)@.wf(),
            old(self)@.accepting(),
            old(self)@.lines < u64::MAX,
        ensures
            actions@ == route_actions(old(self)@, line@),
            final(self)@ == route_state(old(self)@, line@),
            final(self)@.wf(),
    {
        self.route_read(parse_date(line))
    }

    /// Routes one line by what was read from it, and returns what is to be
    /// done for it, in order.
    ///
    /// A line with a timestamp is appended to the shard of its day. If the
    /// day differs from the current one, the day that ends is reported and
    /// its handle released first; if the day is not current already, its
    /// target is opened. A line without a timestamp is reported and
    /// appended to the error target, and changes neither the current day
    /// nor a count.
    pub fn route_read(&mut self, read: Result<Timestamp, LineError>) -> (actions: Vec<Action>)
        requires
            old(self)@.wf(),
            old(self)@.accepting(),
            old(self)@.lines < u64::MAX,
            read matches Ok(stamp) ==> stamp.date.wf(),
        ensures
            actions@ == read_actions(old(self)@, read),
            final(self)@ == read_state(old(self)@, read),
            final(self)@.wf(),
    {
        let mut actions: Vec<Action> = Vec::new();
        match read {
            Err(reason) => {
                actions.push(Action::Report { fault: Fault::Line(reason), line: self.lines });
                actions.push(Action::Append { target: Target::Errors, line: self.lines });
                self.phase = Phase::Streaming;
                assert(actions@ =~= read_actions(old(self)@, read));
            },
            Ok(stamp) => {
                let date = stamp.date_key();
                if let Some(previous) = self.current {
                    if previous != date {
                        actions.push(Action::Progress { date: previous, count: self.entries });
                        self.registry.evict(previous);
                        actions.push(Action::Evict { date: previous });
                        self.entries = 0;
                    }
                }
                assert(actions@ =~= crossing_actions(old(self)@, date));
                if self.registry.get_or_create(date) {
                    actions.push(Action::Open { date });
                }
                assert(actions@ =~= crossing_actions(old(self)@, date) + opening_actions(
                    old(self)@,
                    date,
                ));
                actions.push(Action::Append { target: Target::Shard(date), line: self.lines });
                self.phase = Phase::Streaming;
                self.current = Some(date);
                self.lines = self.lines + 1;
                self.entries = self.entries + 1;
                assert(actions@ =~= read_actions(old(self)@, read));
            },
        }
        actions
    }

    /// Ends the input: the handle of the current day, if there is one, is
    /// to be released.
    pub fn drain(&mut self) -> (actions: Vec<Action>)
        requires
            old(self)@.wf(),
            old(self)@.accepting(),
        ensures
            actions@ == drain_actions(old(self)@),
            final(self)@ == drain_state(old(self)@),
            final(self)@.wf(),
    {
        let mut actions: Vec<Action> = Vec::new();
        if let Some(date) = self.current {
            self.registry.evict(date);
            actions.push(Action::Evict { date });
        }
        self.phase = Phase::Draining;
        assert(actions@ =~= drain_actions(old(self)@));
        actions
    }

    /// Closes the run with its summary.
    pub fn finish(&mut self) -> (actions: Vec<Action>)
        requires
            old(self)@.wf(),
            old(self)@.phase == Phase::Draining,
        ensures
            actions@ == finish_actions(old(self)@),
            final(self)@ == finish_state(old(self)@),
            final(self)@.wf(),
    {
        let mut actions: Vec<Action> = Vec::new();
        actions.push(Action::Summary { lines: self.lines });
        self.phase = Phase::Done;
        assert(actions@ =~= finish_actions(old(self)@));
        actions
    }
}

/// What is done when an action failed: a line that could not be appended to
/// its shard is reported and appended to the error target instead. Nothing
/// can be done for any other failure, which ends the run.
pub open spec fn fallback_actions(failed: Action) -> Option<Seq<Action>> {
    match failed {
        Action::Append { target: Target::Shard(_), line } => Some(
            seq![
                Action::Report { fault: Fault::Write, line },
                Action::Append { target: Target::Errors, line },
            ],
        ),
        _ => None,
    }
}

/// What to do instead of an action that failed; `None` where the failure
/// is fatal.
pub fn fallback(failed: Action) -> (actions: Option<Vec<Action>>)
    ensures
        actions.is_some() == fallback_actions(failed).is_some(),
        actions matches Some(list) ==> fallback_actions(failed) == Some(list@),
{
    match failed {
        Action::Append { target: Target::Shard(_), line } => {
            let mut list: Vec<Action> = Vec::new();
            list.push(Action::Report { fault: Fault::Write, line });
            list.push(Action::Append { target: Target::Errors, line });
            assert(list@ =~= fallback_actions(failed).unwrap());
            Some(list)
        },
        _ => None,
    }
}

} // verus!
