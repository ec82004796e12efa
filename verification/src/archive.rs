//! Targets held in memory: what a run leaves behind, as a log of appends.
//!
//! A target is a concatenation of frames. The archive keeps every append
//! with the line it was made for, so that what a target holds can be read
//! back both as lines and as bytes.

use crate::frame::{frame_line, line_frame};
use crate::router::{Action, Target};
use vstd::prelude::*;
use vstd::string::*;

verus! {

/// One append: the target, the line, and the frame written for the line.
#[derive(Debug)]
pub struct Entry {
    pub target: Target,
    pub line: String,
    pub frame: Vec<u8>,
}

/// The mathematical value of an [`Entry`].
pub struct EntryModel {
    pub target: Target,
    pub line: Seq<char>,
    pub frame: Seq<u8>,
}

impl View for Entry {
    type V = EntryModel;

    open spec fn view(&self) -> EntryModel {
        EntryModel { target: self.target, line: self.line@, frame: self.frame@ }
    }
}

/// The entries of an archive, each by its mathematical value.
pub open spec fn entry_models(entries: Seq<Entry>) -> Seq<EntryModel> {
    entries.map_values(|e: Entry| e@)
}

/// The lines of a list, each as its sequence of characters.
pub open spec fn texts(lines: Seq<String>) -> Seq<Seq<char>> {
    lines.map_values(|line: String| line@)
}

/// The entries that were appended to `target`, in their order.
pub open spec fn entries_at(entries: Seq<EntryModel>, target: Target) -> Seq<EntryModel> {
    entries.filter(|e: EntryModel| e.target == target)
}

/// The lines that were appended to `target`, in their order.
pub open spec fn lines_at(entries: Seq<EntryModel>, target: Target) -> Seq<Seq<char>> {
    entries_at(entries, target).map_values(|e: EntryModel| e.line)
}

/// The bytes of `target`: the frames appended to it, one after the other.
pub open spec fn content_at(entries: Seq<EntryModel>, target: Target) -> Seq<u8> {
    entries_at(entries, target).map_values(|e: EntryModel| e.frame).flatten()
}

/// The mathematical value of an [`Archive`].
pub struct ArchiveModel {
    /// The targets that exist, in the order in which they were created.
    pub created: Seq<Target>,
    /// The appends, in the order in which they were made.
    pub entries: Seq<EntryModel>,
}

impl ArchiveModel {
    /// An archive in which only the error target exists, empty.
    pub open spec fn initial() -> ArchiveModel {
        ArchiveModel { created: seq![Target::Errors], entries: seq![] }
    }

    /// The archive once `target` was opened: the target is created where it
    /// did not exist, and what it holds stays.
    pub open spec fn opened(self, target: Target) -> ArchiveModel {
        if self.created.contains(target) {
            self
        } else {
            ArchiveModel { created: self.created.push(target), ..self }
        }
    }

    /// The archive once `line` was appended to `target` as `frame`.
    pub open spec fn appended(self, target: Target, line: Seq<char>, frame: Seq<u8>) -> ArchiveModel {
        ArchiveModel {
            created: self.opened(target).created,
            entries: self.entries.push(EntryModel { target, line, frame }),
        }
    }

    /// No target was created twice, and nothing was appended to a target
    /// that does not exist.
    pub open spec fn wf(self) -> bool {
        &&& self.created.no_duplicates()
        &&& forall|i: int|
            0 <= i < self.entries.len() ==> self.created.contains(
                #[trigger] self.entries[i].target,
            )
    }

    /// The archive once an action was performed for `line`: opening creates,
    /// appending adds the line's frame, and nothing else touches a target.
    pub open spec fn performed(self, action: Action, line: Seq<char>) -> ArchiveModel {
        match action {
            Action::Open { date } => self.opened(Target::Shard(date)),
            Action::Append { target, .. } => match line_frame(line) {
                Some(frame) => self.appended(target, line, frame),
                None => self,
            },
            _ => self,
        }
    }
}

/// Appending one entry more adds it to the entries of its target and to no
/// other.
pub proof fn lemma_entries_at_push(entries: Seq<EntryModel>, entry: EntryModel, target: Target)
    ensures
        entries_at(entries.push(entry), target) == if entry.target == target {
            entries_at(entries, target).push(entry)
        } else {
            entries_at(entries, target)
        },
{
    reveal(Seq::filter);
    assert(entries.push(entry).drop_last() =~= entries);
}

/// Appending one entry more adds its line to the lines of its target and
/// to no other.
pub proof fn lemma_lines_at_push(entries: Seq<EntryModel>, entry: EntryModel, target: Target)
    ensures
        lines_at(entries.push(entry), target) == if entry.target == target {
            lines_at(entries, target).push(entry.line)
        } else {
            lines_at(entries, target)
        },
{
    lemma_entries_at_push(entries, entry, target);
    if entry.target == target {
        assert(lines_at(entries.push(entry), target) =~= lines_at(entries, target).push(
            entry.line,
        ));
    }
}

/// Appending one entry more adds its frame to the end of its target and
/// leaves every other target as it is.
pub proof fn lemma_content_at_push(entries: Seq<EntryModel>, entry: EntryModel, target: Target)
    ensures
        content_at(entries.push(entry), target) == if entry.target == target {
            content_at(entries, target) + entry.frame
        } else {
            content_at(entries, target)
        },
{
    lemma_entries_at_push(entries, entry, target);
    if entry.target == target {
        let frames = entries_at(entries, target).map_values(|e: EntryModel| e.frame);
        assert(entries_at(entries.push(entry), target).map_values(|e: EntryModel| e.frame)
            =~= frames.push(entry.frame));
        frames.lemma_flatten_push(entry.frame);
    }
}

/// Whether performing an action for `line` can fail in memory: only an
/// append can, where the line cannot be framed.
pub open spec fn fails(action: Action, line: Seq<char>) -> bool {
    action is Append && line_frame(line) is None
}

/// Targets in memory.
#[derive(Debug)]
pub struct Archive {
    created: Vec<Target>,
    entries: Vec<Entry>,
}

impl View for Archive {
    type V = ArchiveModel;

    closed spec fn view(&self) -> ArchiveModel {
        ArchiveModel { created: self.created@, entries: entry_models(self.entries@) }
    }
}

impl Archive {
    /// An archive with the error target created and nothing appended.
    pub fn new() -> (archive: Archive)
        ensures
            archive@ == ArchiveModel::initial(),
            archive@.wf(),
    {
        let mut created: Vec<Target> = Vec::new();
        created.push(Target::Errors);
        let archive = Archive { created, entries: Vec::new() };
        assert(archive@.created =~= seq![Target::Errors]);
        assert(archive@.entries =~= seq![]);
        archive
    }

    /// Whether the target exists.
    pub fn has_target(&self, target: Target) -> (found: bool)
        ensures
            found == self@.created.contains(target),
    {
        let mut i: usize = 0;
        while i < self.created.len()
            invariant
                i <= self.created.len(),
                forall|j: int| 0 <= j < i ==> self.created@[j] != target,
            decreases self.created.len() - i,
        {
            if self.created[i] == target {
                return true;
            }
            i += 1;
        }
        false
    }

    /// The targets that exist, in the order in which they were created.
    pub fn targets(&self) -> (targets: Vec<Target>)
        ensures
            targets@ == self@.created,
    {
        self.created.clone()
    }

    /// The number of appends made.
    pub fn len(&self) -> (count: usize)
        ensures
            count == self@.entries.len(),
    {
        self.entries.len()
    }

    /// The lines appended to a target, in the order in which they came.
    pub fn lines_of(&self, target: Target) -> (lines: Vec<String>)
        ensures
            texts(lines@) == lines_at(self@.entries, target),
    {
        let ghost all = entry_models(self.entries@);
        let mut lines: Vec<String> = Vec::new();
        let mut i: usize = 0;
        proof {
            reveal(Seq::filter);
            assert(texts(lines@) =~= lines_at(all.take(0), target));
        }
        while i < self.entries.len()
            invariant
                i <= self.entries.len(),
                all == entry_models(self.entries@),
                texts(lines@) == lines_at(all.take(i as int), target),
            decreases self.entries.len() - i,
        {
            let entry = &self.entries[i];
            proof {
                assert(all.take(i as int + 1) =~= all.take(i as int).push(entry@));
                lemma_lines_at_push(all.take(i as int), entry@, target);
            }
            if entry.target == target {
                let ghost before = lines@;
                lines.push(entry.line.clone());
                assert(texts(lines@) =~= texts(before).push(entry.line@));
            }
            i += 1;
        }
        assert(all.take(i as int) =~= all);
        lines
    }

    /// The bytes of a target: every frame appended to it, in order.
    pub fn content_of(&self, target: Target) -> (bytes: Vec<u8>)
        ensures
            bytes@ == content_at(self@.entries, target),
    {
        let ghost all = entry_models(self.entries@);
        let mut bytes: Vec<u8> = Vec::new();
        let mut i: usize = 0;
        proof {
            reveal(Seq::filter);
            assert(bytes@ =~= content_at(all.take(0), target));
        }
        while i < self.entries.len()
            invariant
                i <= self.entries.len(),
                all == entry_models(self.entries@),
                bytes@ == content_at(all.take(i as int), target),
            decreases self.entries.len() - i,
        {
            let entry = &self.entries[i];
            proof {
                assert(all.take(i as int + 1) =~= all.take(i as int).push(entry@));
                lemma_content_at_push(all.take(i as int), entry@, target);
            }
            if entry.target == target {
                let mut frame = entry.frame.clone();
                bytes.append(&mut frame);
            }
            i += 1;
        }
        assert(all.take(i as int) =~= all);
        bytes
    }

    /// Opens a target for appending: creates it where it does not exist.
    pub fn open(&mut self, target: Target)
        requires
            old(self)@.wf(),
        ensures
            final(self)@ == old(self)@.opened(target),
            final(self)@.created.contains(target),
            final(self)@.wf(),
    {
        if !self.has_target(target) {
            self.created.push(target);
            assert(self@.created.last() == target);
            assert forall|i: int| 0 <= i < self@.entries.len() implies self@.created.contains(
                #[trigger] self@.entries[i].target,
            ) by {
                let t = self@.entries[i].target;
                let k = choose|k: int| 0 <= k < old(self)@.created.len() && old(self)@.created[k] == t;
                assert(self@.created[k] == t);
            }
        }
    }

    /// Appends a line to a target as one frame of its own, creating the
    /// target where it does not exist. Returns `false`, with nothing
    /// changed, where the line cannot be framed.
    pub fn append(&mut self, target: Target, line: &str) -> (done: bool)
        requires
            old(self)@.wf(),
        ensures
            done == line_frame(line@).is_some(),
            final(self)@ == match line_frame(line@) {
                Some(frame) => old(self)@.appended(target, line@, frame),
                None => old(self)@,
            },
            final(self)@.wf(),
    {
        match frame_line(line) {
            None => false,
            Some(frame) => {
                self.open(target);
                let ghost before = self@;
                let entry = Entry { target, line: line.to_owned(), frame };
                self.entries.push(entry);
                proof {
                    assert(self@.entries =~= before.entries.push(entry@));
                    assert(self@.created.contains(target));
                }
                true
            },
        }
    }

    /// Performs one action of the router for `line`. Returns `false`, with
    /// nothing changed, where the action failed.
    pub fn perform(&mut self, action: Action, line: &str) -> (done: bool)
        requires
            old(self)@.wf(),
        ensures
            done == !fails(action, line@),
            final(self)@ == old(self)@.performed(action, line@),
            final(self)@.wf(),
    {
        match action {
            Action::Open { date } => {
                self.open(Target::Shard(date));
                true
            },
            Action::Append { target, line: _ } => self.append(target, line),
            _ => true,
        }
    }
}

} // verus!
