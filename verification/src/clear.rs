//! Emptying the cache dir.
//!
//! [`ClearDir`] says what it needs next; the caller lists and removes files and hands in what came
//! of it, until the dir is empty.
use vstd::prelude::*;

use crate::mirror::{SyncError, SyncErrorView};
use crate::url::check_view;

verus! {

/// What opening the dir for listing gave.
#[derive(Debug)]
pub enum DirOpened {
    /// There is no such dir.
    Missing,
    Failed(String),
    Opened,
}

/// What a step of listing the dir gave.
#[derive(Debug)]
pub enum DirStep {
    /// There is nothing more in it.
    End,
    /// The entry, or what kind of entry it is, cannot be read.
    Failed(String),
    Dir,
    /// A file, or anything else that is not a dir.
    File,
}

/// How far emptying a dir has come.
pub enum ClearState {
    /// The dir has to be opened for listing.
    Start,
    /// The next entry is needed.
    Next,
    /// The dir that the listing came to has to be removed with all it holds.
    RemoveDir,
    /// The file that the listing came to has to be removed.
    RemoveFile,
    Done(Result<(), SyncErrorView>),
}

/// The failure of a step.
pub open spec fn io_error(dir: Seq<char>, cause: Seq<char>) -> ClearState {
    ClearState::Done(Err(SyncErrorView::Io { path: dir, source: cause }))
}

impl ClearState {
    /// The state after the dir was opened for listing. A dir that is missing is empty.
    pub open spec fn after_open(self, dir: Seq<char>, opened: DirOpened) -> ClearState {
        match opened {
            DirOpened::Missing => ClearState::Done(Ok(())),
            DirOpened::Failed(e) => io_error(dir, e@),
            DirOpened::Opened => ClearState::Next,
        }
    }

    /// The state after a step of the listing.
    pub open spec fn after_step(self, dir: Seq<char>, step: DirStep) -> ClearState {
        match step {
            DirStep::End => ClearState::Done(Ok(())),
            DirStep::Failed(e) => io_error(dir, e@),
            DirStep::Dir => ClearState::RemoveDir,
            DirStep::File => ClearState::RemoveFile,
        }
    }

    /// The state after an entry was removed.
    pub open spec fn after_removal(
        self,
        dir: Seq<char>,
        removed: Result<(), String>,
    ) -> ClearState {
        match removed {
            Err(e) => io_error(dir, e@),
            Ok(_) => ClearState::Next,
        }
    }
}

enum ClearPhase {
    Start,
    Next,
    RemoveDir,
    RemoveFile,
    Done(Result<(), SyncError>),
}

/// A dir that is being emptied. The dir itself stays, since it may be a mount point.
pub struct ClearDir {
    dir: String,
    phase: ClearPhase,
}

/// What emptying a dir needs next.
#[derive(Debug)]
pub enum ClearNeed {
    Open,
    Next,
    RemoveDir,
    RemoveFile,
    /// Nothing: the dir is empty, or emptying it failed.
    Nothing,
}

impl ClearDir {
    /// The path of the dir, as it is written in errors.
    pub closed spec fn path(&self) -> Seq<char> {
        self.dir@
    }

    /// How far emptying it has come.
    pub closed spec fn state(&self) -> ClearState {
        match self.phase {
            ClearPhase::Start => ClearState::Start,
            ClearPhase::Next => ClearState::Next,
            ClearPhase::RemoveDir => ClearState::RemoveDir,
            ClearPhase::RemoveFile => ClearState::RemoveFile,
            ClearPhase::Done(r) => ClearState::Done(check_view(r)),
        }
    }

    /// What is needed next.
    pub fn need(&self) -> (r: ClearNeed)
        ensures
            match self.state() {
                ClearState::Start => r is Open,
                ClearState::Next => r is Next,
                ClearState::RemoveDir => r is RemoveDir,
                ClearState::RemoveFile => r is RemoveFile,
                ClearState::Done(_) => r is Nothing,
            },
    {
        match &self.phase {
            ClearPhase::Start => ClearNeed::Open,
            ClearPhase::Next => ClearNeed::Next,
            ClearPhase::RemoveDir => ClearNeed::RemoveDir,
            ClearPhase::RemoveFile => ClearNeed::RemoveFile,
            ClearPhase::Done(_) => ClearNeed::Nothing,
        }
    }

    fn failed(self, cause: String) -> (r: ClearDir)
        ensures
            r.path() == self.path(),
            r.state() == io_error(self.path(), cause@),
    {
        let error = SyncError::Io { path: self.dir.clone(), source: cause };
        ClearDir { dir: self.dir, phase: ClearPhase::Done(Err(error)) }
    }

    /// Goes on once the dir is open for listing.
    pub fn on_open(self, opened: DirOpened) -> (r: ClearDir)
        requires
            self.state() is Start,
        ensures
            r.path() == self.path(),
            r.state() == self.state().after_open(self.path(), opened),
    {
        match opened {
            DirOpened::Missing => ClearDir { dir: self.dir, phase: ClearPhase::Done(Ok(())) },
            DirOpened::Failed(e) => self.failed(e),
            DirOpened::Opened => ClearDir { dir: self.dir, phase: ClearPhase::Next },
        }
    }

    /// Goes on with a step of the listing.
    pub fn on_step(self, step: DirStep) -> (r: ClearDir)
        requires
            self.state() is Next,
        ensures
            r.path() == self.path(),
            r.state() == self.state().after_step(self.path(), step),
    {
        match step {
            DirStep::End => ClearDir { dir: self.dir, phase: ClearPhase::Done(Ok(())) },
            DirStep::Failed(e) => self.failed(e),
            DirStep::Dir => ClearDir { dir: self.dir, phase: ClearPhase::RemoveDir },
            DirStep::File => ClearDir { dir: self.dir, phase: ClearPhase::RemoveFile },
        }
    }

    /// Goes on once the entry is removed.
    pub fn on_removed(self, removed: Result<(), String>) -> (r: ClearDir)
        requires
            self.state() is RemoveDir || self.state() is RemoveFile,
        ensures
            r.path() == self.path(),
            r.state() == self.state().after_removal(self.path(), removed),
    {
        match removed {
            Err(e) => self.failed(e),
            Ok(_) => ClearDir { dir: self.dir, phase: ClearPhase::Next },
        }
    }

    /// What emptying the dir came to, once nothing more is needed.
    pub fn finish(self) -> (r: Result<(), SyncError>)
        requires
            self.state() is Done,
        ensures
            self.state() == ClearState::Done(check_view(r)),
    {
        match self.phase {
            ClearPhase::Done(r) => r,
            _ => Ok(()),
        }
    }
}

/// Begins to remove everything inside the dir, which is called `dir` in errors.
pub fn clear_dir(dir: String) -> (r: ClearDir)
    ensures
        r.path() == dir@,
        r.state() is Start,
{
    ClearDir { dir, phase: ClearPhase::Start }
}

/// An entry of a dir: what listing it gives, and whether it can be removed.
pub struct DirEntryAnswers {
    pub step: DirStep,
    pub removed: Result<(), String>,
}

/// A dir as emptying it sees it.
pub struct DirAnswers {
    /// Whether it can be opened for listing.
    pub opened: DirOpened,
    /// What it holds, in the order of the listing, which then ends.
    pub entries: Seq<DirEntryAnswers>,
}

/// What emptying a dir came to: its result, and how many entries were removed.
pub struct Cleared {
    pub result: Result<(), SyncErrorView>,
    pub removed: int,
}

impl DirAnswers {
    /// What step number `n` of the listing gives.
    pub open spec fn step(self, n: int) -> DirStep {
        if n < self.entries.len() {
            self.entries[n].step
        } else {
            DirStep::End
        }
    }
}

/// The state after the need of `state` was answered, `n` entries having been removed.
pub open spec fn answered(
    state: ClearState,
    dir: Seq<char>,
    answers: DirAnswers,
    n: int,
) -> ClearState {
    match state {
        ClearState::Start => state.after_open(dir, answers.opened),
        ClearState::Next => state.after_step(dir, answers.step(n)),
        ClearState::RemoveDir => state.after_removal(dir, answers.entries[n].removed),
        ClearState::RemoveFile => state.after_removal(dir, answers.entries[n].removed),
        ClearState::Done(_) => state,
    }
}

/// How much of the work on one entry is left. Past the last entry there is none to be removed.
pub open spec fn left(state: ClearState, more: bool) -> int {
    match state {
        ClearState::Start => 3,
        ClearState::Next => if more {
            2
        } else {
            1
        },
        ClearState::RemoveDir => if more {
            1
        } else {
            2
        },
        ClearState::RemoveFile => if more {
            1
        } else {
            2
        },
        ClearState::Done(_) => 0,
    }
}

/// What emptying a dir comes to when every need is answered, one after another, `n` entries having
/// been removed.
pub open spec fn drive(state: ClearState, dir: Seq<char>, answers: DirAnswers, n: int) -> Cleared
    decreases
        if n < answers.entries.len() {
            answers.entries.len() - n
        } else {
            0
        },
        left(state, n < answers.entries.len()),
{
    let next = answered(state, dir, answers, n);
    match state {
        ClearState::Done(result) => Cleared { result, removed: n },
        ClearState::RemoveDir => if next is Next {
            drive(next, dir, answers, n + 1)
        } else {
            drive(next, dir, answers, n)
        },
        ClearState::RemoveFile => if next is Next {
            drive(next, dir, answers, n + 1)
        } else {
            drive(next, dir, answers, n)
        },
        _ => drive(next, dir, answers, n),
    }
}

/// Why an entry cannot be listed or removed, if it cannot.
pub open spec fn trouble(entry: DirEntryAnswers) -> Option<Seq<char>> {
    match entry.step {
        DirStep::Failed(e) => Some(e@),
        _ => match entry.removed {
            Err(e) => Some(e@),
            Ok(_) => None,
        },
    }
}

/// What removing the entries from number `n` on comes to: the first trouble ends it.
pub open spec fn removal(dir: Seq<char>, entries: Seq<DirEntryAnswers>, n: int) -> Cleared
    decreases entries.len() - n,
{
    if n >= entries.len() {
        Cleared { result: Ok(()), removed: n }
    } else {
        match trouble(entries[n]) {
            Some(cause) => Cleared {
                result: Err(SyncErrorView::Io { path: dir, source: cause }),
                removed: n,
            },
            None => removal(dir, entries, n + 1),
        }
    }
}

proof fn lemma_drive_removes(dir: Seq<char>, answers: DirAnswers, n: int)
    requires
        0 <= n <= answers.entries.len(),
        forall|i: int|
            0 <= i < answers.entries.len() ==> !((#[trigger] answers.entries[i]).step is End),
    ensures
        drive(ClearState::Next, dir, answers, n) == removal(dir, answers.entries, n),
    decreases answers.entries.len() - n,
{
    reveal_with_fuel(drive, 4);
    if n < answers.entries.len() {
        let entry = answers.entries[n];
        assert(!(entry.step is End));
        if trouble(entry) is None {
            lemma_drive_removes(dir, answers, n + 1);
        }
    }
}

/// Emptying a dir ends, whatever it holds. A dir that is missing is empty already, one that cannot
/// be opened is an I/O error, and in any other the entries are removed one after another.
pub proof fn law_clear_dir_removes_the_entries(dir: Seq<char>, answers: DirAnswers)
    requires
        forall|i: int|
            0 <= i < answers.entries.len() ==> !((#[trigger] answers.entries[i]).step is End),
    ensures
        drive(ClearState::Start, dir, answers, 0) == match answers.opened {
            DirOpened::Missing => Cleared { result: Ok(()), removed: 0 },
            DirOpened::Failed(e) => Cleared {
                result: Err(SyncErrorView::Io { path: dir, source: e@ }),
                removed: 0,
            },
            DirOpened::Opened => removal(dir, answers.entries, 0),
        },
{
    reveal_with_fuel(drive, 3);
    lemma_drive_removes(dir, answers, 0);
}

proof fn lemma_removal(dir: Seq<char>, entries: Seq<DirEntryAnswers>, n: int, k: int)
    requires
        0 <= n <= k <= entries.len(),
        forall|i: int| n <= i < k ==> trouble(#[trigger] entries[i]) is None,
    ensures
        removal(dir, entries, n) == removal(dir, entries, k),
    decreases k - n,
{
    if n < k {
        assert(trouble(entries[n]) is None);
        lemma_removal(dir, entries, n + 1, k);
    }
}

/// Where no entry gives trouble, all of them are removed. Otherwise the first one that does ends
/// it: its error is the result, and exactly the entries before it were removed.
pub proof fn law_first_trouble_ends_clearing(
    dir: Seq<char>,
    entries: Seq<DirEntryAnswers>,
    k: int,
)
    requires
        0 <= k <= entries.len(),
        forall|i: int| 0 <= i < k ==> trouble(#[trigger] entries[i]) is None,
        k < entries.len() ==> trouble(entries[k]) is Some,
    ensures
        removal(dir, entries, 0) == (Cleared {
            result: if k == entries.len() {
                Ok(())
            } else {
                Err(SyncErrorView::Io { path: dir, source: trouble(entries[k])->0 })
            },
            removed: k,
        }),
{
    lemma_removal(dir, entries, 0, k);
}

/// A dir whose entries can all be listed and removed is emptied: all of them are removed. If
/// not, it ends with the first one that cannot be, whose cause is told with the path of the dir.
pub proof fn law_dir_is_emptied(dir: Seq<char>, answers: DirAnswers, k: int)
    requires
        answers.opened is Opened,
        0 <= k <= answers.entries.len(),
        forall|i: int|
            0 <= i < answers.entries.len() ==> !((#[trigger] answers.entries[i]).step is End),
        forall|i: int|
            0 <= i < k ==> !((#[trigger] answers.entries[i]).step is Failed)
                && answers.entries[i].removed is Ok,
    ensures
        ({
            let cleared = drive(ClearState::Start, dir, answers, 0);
            &&& k == answers.entries.len() ==> cleared.result is Ok && cleared.removed == k
            &&& k < answers.entries.len() ==> {
                let entry = answers.entries[k];
                &&& entry.step matches DirStep::Failed(cause) ==> cleared.removed == k
                    && cleared.result == Err::<(), _>(
                    SyncErrorView::Io { path: dir, source: cause@ },
                )
                &&& !(entry.step is Failed) && entry.removed is Err ==> cleared.removed == k
                    && cleared.result == Err::<(), _>(
                    SyncErrorView::Io { path: dir, source: entry.removed->Err_0@ },
                )
            }
        }),
{
    law_clear_dir_removes_the_entries(dir, answers);
    assert forall|i: int| 0 <= i < k implies trouble(#[trigger] answers.entries[i]) is None by {}
    lemma_removal(dir, answers.entries, 0, k);
}

/// A dir inside is removed as a dir, anything else as a file, and the listing goes on after each. A
/// missing dir needs nothing, and the end of the listing ends it.
pub proof fn law_each_entry_is_removed_by_its_kind(
    state: ClearState,
    dir: Seq<char>,
    cause: String,
)
    ensures
        state.after_step(dir, DirStep::Dir) is RemoveDir,
        state.after_step(dir, DirStep::File) is RemoveFile,
        state.after_step(dir, DirStep::End) == ClearState::Done(Ok(())),
        state.after_step(dir, DirStep::Failed(cause)) == ClearState::Done(
            Err(SyncErrorView::Io { path: dir, source: cause@ }),
        ),
        state.after_removal(dir, Ok(())) is Next,
        state.after_removal(dir, Err(cause)) == ClearState::Done(
            Err(SyncErrorView::Io { path: dir, source: cause@ }),
        ),
        state.after_open(dir, DirOpened::Opened) is Next,
        state.after_open(dir, DirOpened::Missing) == ClearState::Done(Ok(())),
        state.after_open(dir, DirOpened::Failed(cause)) == ClearState::Done(
            Err(SyncErrorView::Io { path: dir, source: cause@ }),
        ),
{
}

} // verus!
