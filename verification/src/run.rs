//! A whole run over lines held in memory, and what holds of every run.

use crate::archive::{
    content_at, fails, lemma_content_at_push, lemma_lines_at_push, lines_at, texts, Archive,
    ArchiveModel, EntryModel,
};
use crate::date::DateKey;
use crate::frame::line_frame;
use crate::record::line_date;
use crate::record::line_timestamp;
use crate::router::{
    drain_actions, drain_state, finish_actions, finish_state, line_target, route_actions,
    route_state, Action, Router, RouterState, Target,
};
use vstd::prelude::*;

verus! {

/// The state of the router after the lines were taken, one by one.
pub open spec fn run_state(lines: Seq<Seq<char>>) -> RouterState
    decreases lines.len(),
{
    if lines.len() == 0 {
        RouterState::initial()
    } else {
        route_state(run_state(lines.drop_last()), lines.last())
    }
}

/// The actions asked for while the lines were taken, in order.
pub open spec fn stream_actions(lines: Seq<Seq<char>>) -> Seq<Action>
    decreases lines.len(),
{
    if lines.len() == 0 {
        seq![]
    } else {
        stream_actions(lines.drop_last()) + route_actions(
            run_state(lines.drop_last()),
            lines.last(),
        )
    }
}

/// Every action of a run over the lines: those for the lines, the release
/// of the last day's handle, and the summary.
pub open spec fn run_actions(lines: Seq<Seq<char>>) -> Seq<Action> {
    stream_actions(lines) + drain_actions(run_state(lines)) + finish_actions(
        drain_state(run_state(lines)),
    )
}

/// Whether every line can be framed.
pub open spec fn all_framed(lines: Seq<Seq<char>>) -> bool {
    forall|i: int| 0 <= i < lines.len() ==> line_frame(#[trigger] lines[i]) is Some
}

/// The append that a line leads to: to the target it belongs to, as its
/// frame.
pub open spec fn entry_of(line: Seq<char>) -> EntryModel {
    EntryModel { target: line_target(line), line, frame: line_frame(line).unwrap() }
}

/// The appends of a run: one for each line, in the order of the lines.
pub open spec fn entries_of(lines: Seq<Seq<char>>) -> Seq<EntryModel> {
    lines.map_values(|line: Seq<char>| entry_of(line))
}

/// The targets that a run creates, in order: the error target first, then
/// the shard of each day when its first line comes.
pub open spec fn created_of(lines: Seq<Seq<char>>) -> Seq<Target>
    decreases lines.len(),
{
    if lines.len() == 0 {
        seq![Target::Errors]
    } else {
        let before = created_of(lines.drop_last());
        let target = line_target(lines.last());
        if before.contains(target) {
            before
        } else {
            before.push(target)
        }
    }
}

/// What a run over the lines leaves behind.
pub open spec fn archive_of(lines: Seq<Seq<char>>) -> ArchiveModel {
    ArchiveModel { created: created_of(lines), entries: entries_of(lines) }
}

/// The lines of a day: those whose timestamp falls on it, in their order.
pub open spec fn lines_of_day(lines: Seq<Seq<char>>, date: DateKey) -> Seq<Seq<char>> {
    lines.filter(|line: Seq<char>| line_date(line) == Some(date))
}

/// The lines without a date, in their order.
pub open spec fn lines_without_day(lines: Seq<Seq<char>>) -> Seq<Seq<char>> {
    lines.filter(|line: Seq<char>| line_date(line) is None)
}

/// The frames of the lines, one after the other.
pub open spec fn frames_of(lines: Seq<Seq<char>>) -> Seq<u8> {
    lines.map_values(|line: Seq<char>| line_frame(line).unwrap()).flatten()
}

/// The archive after every action of a list was performed for `line`.
pub open spec fn performed_all(archive: ArchiveModel, actions: Seq<Action>, line: Seq<char>)
    -> ArchiveModel
    decreases actions.len(),
{
    if actions.len() == 0 {
        archive
    } else {
        performed_all(archive, actions.drop_last(), line).performed(actions.last(), line)
    }
}

/// What a run over lines in memory returns.
#[derive(Debug)]
pub struct Run {
    /// The targets as the run left them.
    pub archive: Archive,
    /// Every action of the run, in the order in which it was performed.
    pub actions: Vec<Action>,
    /// The router as the run left it.
    pub router: Router,
}

proof fn lemma_performed_all_push(
    archive: ArchiveModel,
    actions: Seq<Action>,
    action: Action,
    line: Seq<char>,
)
    ensures
        performed_all(archive, actions.push(action), line) == performed_all(
            archive,
            actions,
            line,
        ).performed(action, line),
{
    assert(actions.push(action).drop_last() =~= actions);
}

/// Performing the actions that the router asks for one line more leaves
/// what a run over the longer input leaves.
proof fn lemma_route_performed(lines: Seq<Seq<char>>, line: Seq<char>)
    requires
        line_frame(line) is Some,
    ensures
        performed_all(archive_of(lines), route_actions(run_state(lines), line), line)
            == archive_of(lines.push(line)),
{
    let s = run_state(lines);
    let before = archive_of(lines);
    let target = line_target(line);
    let frame = line_frame(line).unwrap();
    let longer = lines.push(line);
    assert(longer.drop_last() =~= lines);
    assert(entries_of(longer) =~= entries_of(lines).push(entry_of(line)));
    let after = before.appended(target, line, frame);
    assert(after == archive_of(longer));
    let none: Seq<Action> = seq![];
    let step = route_actions(s, line);
    let append = step.last();
    assert(before.opened(target).created.contains(target)) by {
        if !before.created.contains(target) {
            assert(before.created.push(target).last() == target);
        }
    }
    match line_timestamp(line) {
        Err(reason) => {
            let report = step[0];
            assert(route_actions(s, line) =~= none.push(report).push(append));
            lemma_performed_all_push(before, none.push(report), append, line);
            lemma_performed_all_push(before, none, report, line);
        },
        Ok(stamp) => {
            let date = stamp.date;
            let open = Action::Open { date };
            if s.current == Some(date) {
                assert(route_actions(s, line) =~= none.push(append));
                lemma_performed_all_push(before, none, append, line);
            } else if s.current is None {
                assert(route_actions(s, line) =~= none.push(open).push(append));
                lemma_performed_all_push(before, none.push(open), append, line);
                lemma_performed_all_push(before, none, open, line);
            } else {
                let progress = step[0];
                let evict = step[1];
                assert(route_actions(s, line) =~= none.push(progress).push(evict).push(open).push(
                    append,
                ));
                lemma_performed_all_push(
                    before,
                    none.push(progress).push(evict).push(open),
                    append,
                    line,
                );
                lemma_performed_all_push(before, none.push(progress).push(evict), open, line);
                lemma_performed_all_push(before, none.push(progress), evict, line);
                lemma_performed_all_push(before, none, progress, line);
            }
            assert(before.opened(target).appended(target, line, frame) == after);
        },
    }
}

/// The last action for a line is its append.
proof fn lemma_route_ends_in_append(s: RouterState, line: Seq<char>)
    ensures
        route_actions(s, line).len() > 0,
        route_actions(s, line).last() is Append,
{
}

/// Every run reaches a state that is well-formed and still takes lines,
/// with no more lines routed than were given.
pub proof fn lemma_run_state_wf(lines: Seq<Seq<char>>)
    requires
        lines.len() <= u64::MAX,
        forall|i: int|
            0 <= i < lines.len() ==> (#[trigger] line_date(lines[i]) matches Some(date)
                ==> date.wf()),
    ensures
        run_state(lines).wf(),
        run_state(lines).accepting(),
        run_state(lines).lines <= lines.len(),
    decreases lines.len(),
{
    if lines.len() > 0 {
        let shorter = lines.drop_last();
        assert forall|i: int| 0 <= i < shorter.len() implies (#[trigger] line_date(
            shorter[i],
        ) matches Some(date) ==> date.wf()) by {
            assert(shorter[i] == lines[i]);
        }
        lemma_run_state_wf(shorter);
        assert(line_date(lines[lines.len() - 1]) matches Some(date) ==> date.wf());
    }
}

/// The targets of the appends among the actions, in order.
pub open spec fn appended_targets(actions: Seq<Action>) -> Seq<Target>
    decreases actions.len(),
{
    if actions.len() == 0 {
        seq![]
    } else {
        let before = appended_targets(actions.drop_last());
        match actions.last() {
            Action::Append { target, .. } => before.push(target),
            _ => before,
        }
    }
}

proof fn lemma_appended_targets_push(actions: Seq<Action>, action: Action)
    ensures
        appended_targets(actions.push(action)) == match action {
            Action::Append { target, .. } => appended_targets(actions).push(target),
            _ => appended_targets(actions),
        },
{
    assert(actions.push(action).drop_last() =~= actions);
}

proof fn lemma_appended_targets_add(first: Seq<Action>, second: Seq<Action>)
    ensures
        appended_targets(first + second) == appended_targets(first) + appended_targets(second),
    decreases second.len(),
{
    if second.len() == 0 {
        assert(first + second =~= first);
        assert(appended_targets(first) + appended_targets(second) =~= appended_targets(first));
    } else {
        let shorter = second.drop_last();
        assert((first + second).drop_last() =~= first + shorter);
        lemma_appended_targets_add(first, shorter);
        match second.last() {
            Action::Append { target, .. } => {
                assert((appended_targets(first) + appended_targets(shorter)).push(target)
                    =~= appended_targets(first) + appended_targets(shorter).push(target));
            },
            _ => {},
        }
    }
}

/// Whatever the state, the actions for a line hold exactly one append, and
/// it goes to the target the line belongs to: a line reaches a shard or the
/// error target, never both and never neither.
pub proof fn lemma_one_append_for_a_line(s: RouterState, line: Seq<char>)
    ensures
        appended_targets(route_actions(s, line)) == seq![line_target(line)],
{
    let step = route_actions(s, line);
    let none: Seq<Action> = seq![];
    let append = step.last();
    let wanted = seq![line_target(line)];
    assert(appended_targets(none) =~= seq![]);
    match line_timestamp(line) {
        Err(_) => {
            let report = step[0];
            assert(step =~= none.push(report).push(append));
            lemma_appended_targets_push(none.push(report), append);
            lemma_appended_targets_push(none, report);
        },
        Ok(stamp) => {
            if s.current == Some(stamp.date) {
                assert(step =~= none.push(append));
                lemma_appended_targets_push(none, append);
            } else if s.current is None {
                let open = step[0];
                assert(step =~= none.push(open).push(append));
                lemma_appended_targets_push(none.push(open), append);
                lemma_appended_targets_push(none, open);
            } else {
                let progress = step[0];
                let evict = step[1];
                let open = step[2];
                assert(step =~= none.push(progress).push(evict).push(open).push(append));
                lemma_appended_targets_push(none.push(progress).push(evict).push(open), append);
                lemma_appended_targets_push(none.push(progress).push(evict), open);
                lemma_appended_targets_push(none.push(progress), evict);
                lemma_appended_targets_push(none, progress);
            }
        },
    }
    assert(appended_targets(step) =~= wanted);
}

/// Over a whole input, the appends are one for each line, in the order of
/// the lines, each to the target its line belongs to.
pub proof fn lemma_every_line_appended_once(lines: Seq<Seq<char>>)
    ensures
        appended_targets(stream_actions(lines)) == lines.map_values(
            |line: Seq<char>| line_target(line),
        ),
    decreases lines.len(),
{
    let targets = lines.map_values(|line: Seq<char>| line_target(line));
    if lines.len() == 0 {
        assert(appended_targets(stream_actions(lines)) =~= targets);
    } else {
        let shorter = lines.drop_last();
        lemma_every_line_appended_once(shorter);
        lemma_one_append_for_a_line(run_state(shorter), lines.last());
        lemma_appended_targets_add(
            stream_actions(shorter),
            route_actions(run_state(shorter), lines.last()),
        );
        assert(appended_targets(stream_actions(lines)) =~= targets);
    }
}

/// The shard of a day holds the lines of that day, all of them and no
/// other, in the order in which they came. This holds of every input, in
/// whatever order its days come.
pub proof fn lemma_shard_holds_its_day(lines: Seq<Seq<char>>, date: DateKey)
    ensures
        lines_at(entries_of(lines), Target::Shard(date)) == lines_of_day(lines, date),
    decreases lines.len(),
{
    reveal(Seq::filter);
    let target = Target::Shard(date);
    if lines.len() == 0 {
        assert(lines_at(entries_of(lines), target) =~= lines_of_day(lines, date));
    } else {
        let shorter = lines.drop_last();
        let line = lines.last();
        lemma_shard_holds_its_day(shorter, date);
        assert(entries_of(lines) =~= entries_of(shorter).push(entry_of(line)));
        lemma_lines_at_push(entries_of(shorter), entry_of(line), target);
    }
}

/// The error target holds the lines without a date, all of them and no
/// other, in the order in which they came.
pub proof fn lemma_errors_hold_the_rest(lines: Seq<Seq<char>>)
    ensures
        lines_at(entries_of(lines), Target::Errors) == lines_without_day(lines),
    decreases lines.len(),
{
    reveal(Seq::filter);
    if lines.len() == 0 {
        assert(lines_at(entries_of(lines), Target::Errors) =~= lines_without_day(lines));
    } else {
        let shorter = lines.drop_last();
        let line = lines.last();
        lemma_errors_hold_the_rest(shorter);
        assert(entries_of(lines) =~= entries_of(shorter).push(entry_of(line)));
        lemma_lines_at_push(entries_of(shorter), entry_of(line), Target::Errors);
    }
}

proof fn lemma_frames_of_push(lines: Seq<Seq<char>>, line: Seq<char>)
    ensures
        frames_of(lines.push(line)) == frames_of(lines) + line_frame(line).unwrap(),
{
    let frames = lines.map_values(|l: Seq<char>| line_frame(l).unwrap());
    assert(lines.push(line).map_values(|l: Seq<char>| line_frame(l).unwrap()) =~= frames.push(
        line_frame(line).unwrap(),
    ));
    frames.lemma_flatten_push(line_frame(line).unwrap());
}

/// What a target holds is the frames of the lines routed to it, one after
/// the other, and nothing else.
pub proof fn lemma_content_is_the_frames(lines: Seq<Seq<char>>, target: Target)
    ensures
        content_at(entries_of(lines), target) == frames_of(lines_at(entries_of(lines), target)),
    decreases lines.len(),
{
    reveal(Seq::filter);
    if lines.len() == 0 {
        assert(entries_of(lines) =~= seq![]);
        assert(lines_at(entries_of(lines), target) =~= seq![]);
        assert(content_at(entries_of(lines), target) =~= frames_of(
            lines_at(entries_of(lines), target),
        ));
    } else {
        let shorter = lines.drop_last();
        let line = lines.last();
        lemma_content_is_the_frames(shorter, target);
        assert(entries_of(lines) =~= entries_of(shorter).push(entry_of(line)));
        lemma_lines_at_push(entries_of(shorter), entry_of(line), target);
        lemma_content_at_push(entries_of(shorter), entry_of(line), target);
        if line_target(line) == target {
            lemma_frames_of_push(lines_at(entries_of(shorter), target), line);
        }
    }
}

/// What a target holds depends on the lines routed to it alone: two inputs
/// that route the same lines to a target leave the same bytes in it,
/// however often its handle was released and opened again in between.
pub proof fn lemma_content_follows_the_lines(
    first: Seq<Seq<char>>,
    second: Seq<Seq<char>>,
    target: Target,
)
    requires
        lines_at(entries_of(first), target) == lines_at(entries_of(second), target),
    ensures
        content_at(entries_of(first), target) == content_at(entries_of(second), target),
{
    lemma_content_is_the_frames(first, target);
    lemma_content_is_the_frames(second, target);
}

/// Shards lines held in memory: runs the router over them and performs
/// its actions on an archive.
///
/// The run succeeds exactly where every line can be framed. It then leaves
/// one append for each line, in the order of the lines: to the shard of the
/// line's day, or to the error target where the line has none.
pub fn shard_lines(lines: &Vec<String>) -> (run: Option<Run>)
    ensures
        run.is_some() == all_framed(texts(lines@)),
        run matches Some(done) ==> {
            &&& done.actions@ == run_actions(texts(lines@))
            &&& done.archive@ == archive_of(texts(lines@))
            &&& done.archive@.wf()
            &&& done.router@ == finish_state(drain_state(run_state(texts(lines@))))
        },
{
    let ghost all = texts(lines@);
    let mut router = Router::new();
    let mut archive = Archive::new();
    let mut actions: Vec<Action> = Vec::new();
    let mut i: usize = 0;
    proof {
        assert(all.take(0) =~= Seq::<Seq<char>>::empty());
        assert(entries_of(all.take(0)) =~= seq![]);
    }
    while i < lines.len()
        invariant
            i <= lines.len(),
            all == texts(lines@),
            router@ == run_state(all.take(i as int)),
            router@.wf(),
            router@.accepting(),
            router@.lines <= i,
            archive@ == archive_of(all.take(i as int)),
            archive@.wf(),
            actions@ == stream_actions(all.take(i as int)),
            all_framed(all.take(i as int)),
        decreases lines.len() - i,
    {
        let line = lines[i].as_str();
        let ghost state = router@;
        let ghost before = archive@;
        let ghost earlier = actions@;
        let ghost prefix = all.take(i as int);
        assert(line@ == all[i as int]);
        let step = router.route(line);
        let mut j: usize = 0;
        while j < step.len()
            invariant
                j <= step.len(),
                i < lines.len(),
                all == texts(lines@),
                line@ == all[i as int],
                step@ == route_actions(state, line@),
                archive@ == performed_all(before, step@.take(j as int), line@),
                archive@.wf(),
                actions@ == earlier + step@.take(j as int),
                forall|k: int| 0 <= k < j ==> !fails(#[trigger] step@[k], line@),
            decreases step.len() - j,
        {
            let action = step[j];
            proof {
                assert(step@.take(j as int + 1) =~= step@.take(j as int).push(action));
                lemma_performed_all_push(before, step@.take(j as int), action, line@);
            }
            if !archive.perform(action, line) {
                proof {
                    assert(all[i as int] == line@);
                    assert(line_frame(all[i as int]) is None);
                }
                return None;
            }
            actions.push(action);
            j += 1;
        }
        proof {
            assert(step@.take(j as int) =~= step@);
            lemma_route_ends_in_append(state, line@);
            assert(!fails(step@[step@.len() - 1], line@));
            assert(line_frame(line@) is Some);
            let longer = all.take(i as int + 1);
            assert(longer =~= prefix.push(line@));
            assert(longer.drop_last() =~= prefix);
            lemma_route_performed(prefix, line@);
            assert forall|k: int| 0 <= k < longer.len() implies line_frame(
                #[trigger] longer[k],
            ) is Some by {
                if k < i {
                    assert(longer[k] == prefix[k]);
                }
            }
        }
        i += 1;
    }
    proof {
        assert(all.take(i as int) =~= all);
    }
    let mut drained = router.drain();
    actions.append(&mut drained);
    let mut closing = router.finish();
    actions.append(&mut closing);
    Some(Run { archive, actions, router })
}

} // verus!
