//! Where the output goes: the mode of a run and the names of its targets.

use crate::date::{iso_date_text, DateKey};
use crate::router::Target;
use vstd::prelude::*;
use vstd::string::*;

verus! {

/// The text in which every occurrence of `from` in `text` is replaced by
/// `to`: the occurrences are taken from the left and do not overlap.
pub open spec fn replaced_text(text: Seq<char>, from: Seq<char>, to: Seq<char>) -> Seq<char>
    decreases text.len(),
{
    if from.len() == 0 || text.len() < from.len() {
        text
    } else if text.take(from.len() as int) == from {
        to + replaced_text(text.skip(from.len() as int), from, to)
    } else {
        seq![text[0]] + replaced_text(text.skip(1), from, to)
    }
}

/// Calls `str::replace` with a pattern that is not empty. The contract
/// states what the standard library documents: every match of the pattern,
/// found from the left without overlap, gives way to the replacement.
#[verifier::external_body]
fn replace_all(text: &str, from: &str, to: &str) -> (replaced: String)
    requires
        from@.len() > 0,
    ensures
        replaced@ == replaced_text(text@, from@, to@),
{
    text.replace(from, to)
}

/// What a run does with its input.
#[derive(Debug)]
pub enum Mode {
    /// The lines are echoed as they are, and nothing is sharded.
    Passthrough,
    /// The lines are sharded into targets whose names begin with `prefix`.
    Shard { prefix: String },
}

/// The mathematical value of a [`Mode`].
pub enum ModeModel {
    Passthrough,
    Shard { prefix: Seq<char> },
}

impl View for Mode {
    type V = ModeModel;

    open spec fn view(&self) -> ModeModel {
        match self {
            Mode::Passthrough => ModeModel::Passthrough,
            Mode::Shard { prefix } => ModeModel::Shard { prefix: prefix@ },
        }
    }
}

/// The prefix used where none is given: the input's path without the
/// fragment `.json.1`.
pub open spec fn default_prefix(input: Seq<char>) -> Seq<char> {
    replaced_text(input, ".json.1"@, ""@)
}

/// The mode that the two arguments of a run select.
pub open spec fn mode_of(input: Seq<char>, output: Seq<char>) -> ModeModel {
    if output == "-"@ {
        ModeModel::Passthrough
    } else if output == ""@ {
        ModeModel::Shard { prefix: default_prefix(input) }
    } else {
        ModeModel::Shard { prefix: output }
    }
}

/// Selects the mode of a run: `-` as output asks for the lines to be
/// echoed, no output for the prefix derived from the input, anything else
/// is the prefix.
pub fn select_mode(input: &str, output: &str) -> (mode: Mode)
    ensures
        mode@ == mode_of(input@, output@),
{
    let given = output.to_owned();
    if given == String::from_str("-") {
        Mode::Passthrough
    } else if given == String::from_str("") {
        proof {
            reveal_strlit(".json.1");
        }
        Mode::Shard { prefix: replace_all(input, ".json.1", "") }
    } else {
        Mode::Shard { prefix: given }
    }
}

/// The name of the target of a day.
pub open spec fn shard_path_text(prefix: Seq<char>, date: DateKey) -> Seq<char> {
    prefix + "."@ + date.text() + ".jsonl.gz"@
}

/// The name of the error target.
pub open spec fn error_path_text(prefix: Seq<char>) -> Seq<char> {
    prefix + ".error.gz"@
}

/// The name of a target.
pub open spec fn target_path_text(prefix: Seq<char>, target: Target) -> Seq<char> {
    match target {
        Target::Shard(date) => shard_path_text(prefix, date),
        Target::Errors => error_path_text(prefix),
    }
}

/// Names the target of a day: the prefix, the day as year, month and day,
/// and the ending of a compressed file of lines.
pub fn shard_path(prefix: &str, date: &DateKey) -> (path: String)
    requires
        date.wf(),
    ensures
        path@ == shard_path_text(prefix@, *date),
        0 <= date.year <= 9999 ==> path@ == prefix@ + "."@ + iso_date_text(*date) + ".jsonl.gz"@,
{
    let mut path = String::from_str(prefix);
    path.append(".");
    let day = date.to_text();
    path.append(day.as_str());
    path.append(".jsonl.gz");
    path
}

/// Names the error target.
pub fn error_path(prefix: &str) -> (path: String)
    ensures
        path@ == error_path_text(prefix@),
{
    let mut path = String::from_str(prefix);
    path.append(".error.gz");
    path
}

/// Names a target.
pub fn target_path(prefix: &str, target: &Target) -> (path: String)
    requires
        target matches Target::Shard(date) ==> date.wf(),
    ensures
        path@ == target_path_text(prefix@, *target),
{
    match target {
        Target::Shard(date) => shard_path(prefix, date),
        Target::Errors => error_path(prefix),
    }
}

} // verus!
