//! Walking history.
//!
//! [`Log`] says which part of the repository it needs next; the caller reads that part and hands
//! it in, until the log is done.
use vstd::prelude::*;

use crate::error::{AppError, AppErrorView};
use crate::memo::Memo;
use crate::object_id::ObjectId;
use crate::repo::{
    commit_info, commit_info_of, found_view, law_only_outer_slashes_are_taken, normal_path,
    normalize, same_entry, CommitInfo, CommitInfoView, FoundEntry,
};
use crate::text::{lemma_filter_front, lemma_views_push, opt_view, views};
use crate::tree::data_view;

verus! {

/// A commit that the walk through history came to.
#[derive(Debug)]
pub struct Walked {
    pub id: ObjectId,
    pub parents: Vec<ObjectId>,
}

/// The view of a [`Walked`] commit.
#[verifier::ext_equal]
pub struct WalkedView {
    pub id: ObjectId,
    pub parents: Seq<ObjectId>,
}

impl View for Walked {
    type V = WalkedView;

    open spec fn view(&self) -> WalkedView {
        WalkedView { id: self.id, parents: self.parents@ }
    }
}

/// What a finished log gave.
pub type Commits = Result<Seq<CommitInfoView>, AppErrorView>;

/// What is known of the entry at the path, by commit.
pub type Known = Map<ObjectId, Option<FoundEntry>>;

/// How far a log has come. `commits` are listed, and `known` holds the lookups made.
pub enum LogState {
    /// The walk that starts at this commit has to begin.
    Start(ObjectId),
    /// The next commit of the walk is needed.
    Next { commits: Seq<CommitInfoView>, known: Known },
    /// The entry that the commit `at` holds at the path is needed.
    Here { commits: Seq<CommitInfoView>, known: Known, at: WalkedView },
    /// The commit `at` holds `here` at the path; what its parent number `i` holds is needed.
    Parent {
        commits: Seq<CommitInfoView>,
        known: Known,
        at: WalkedView,
        here: Option<FoundEntry>,
        i: int,
    },
    /// The commit `at` is to be listed; its bytes are needed.
    Load { commits: Seq<CommitInfoView>, known: Known, at: WalkedView },
    Done(Commits),
}

/// What a log is asked for: commits that changed the entry at the normalized `path`, if there is
/// one, and no more than `limit` of them.
pub struct LogScope {
    pub path: Option<Seq<char>>,
    pub limit: nat,
}

impl LogScope {
    /// Goes on to the next commit, unless enough are listed.
    pub open spec fn proceed(self, commits: Seq<CommitInfoView>, known: Known) -> LogState {
        if commits.len() == self.limit {
            LogState::Done(Ok(commits))
        } else {
            LogState::Next { commits, known }
        }
    }

    /// Goes on with the commit `at`, which is listed if no path was asked for.
    pub open spec fn consider(
        self,
        commits: Seq<CommitInfoView>,
        known: Known,
        at: WalkedView,
    ) -> LogState {
        if self.path is None {
            LogState::Load { commits, known, at }
        } else if known.contains_key(at.id) {
            self.judge(commits, known, at, known[at.id], 0)
        } else {
            LogState::Here { commits, known, at }
        }
    }

    /// Compares `here`, which the commit `at` holds at the path, with what its parents from
    /// number `i` on hold there. A commit without parents changed the path if it holds anything.
    pub open spec fn judge(
        self,
        commits: Seq<CommitInfoView>,
        known: Known,
        at: WalkedView,
        here: Option<FoundEntry>,
        i: int,
    ) -> LogState
        decreases at.parents.len() - i,
    {
        if at.parents.len() == 0 && here is None {
            self.proceed(commits, known)
        } else if i >= at.parents.len() {
            LogState::Load { commits, known, at }
        } else if !known.contains_key(at.parents[i]) {
            LogState::Parent { commits, known, at, here, i }
        } else if known[at.parents[i]] == here {
            self.proceed(commits, known)
        } else {
            self.judge(commits, known, at, here, i + 1)
        }
    }

    /// The state after the walk has begun.
    pub open spec fn after_start(self, begun: Result<(), Seq<char>>) -> LogState {
        match begun {
            Err(e) => LogState::Done(Err(AppErrorView::Internal(e))),
            Ok(_) => self.proceed(Seq::empty(), Map::empty()),
        }
    }

    /// The state after the walk came to its next commit, or to its end.
    pub open spec fn after_next(
        self,
        state: LogState,
        next: Result<Option<WalkedView>, Seq<char>>,
    ) -> LogState {
        match (state, next) {
            (LogState::Next { .. }, Err(e)) => LogState::Done(Err(AppErrorView::Internal(e))),
            (LogState::Next { commits, .. }, Ok(None)) => LogState::Done(Ok(commits)),
            (LogState::Next { commits, known }, Ok(Some(at))) => self.consider(commits, known, at),
            _ => state,
        }
    }

    /// The state after the entry at the path was looked up.
    pub open spec fn after_entry(
        self,
        state: LogState,
        found: Result<Option<FoundEntry>, Seq<char>>,
    ) -> LogState {
        match (state, found) {
            (LogState::Here { .. }, Err(e)) => LogState::Done(Err(AppErrorView::Internal(e))),
            (LogState::Parent { .. }, Err(e)) => LogState::Done(Err(AppErrorView::Internal(e))),
            (LogState::Here { commits, known, at }, Ok(found)) => self.judge(
                commits,
                known.insert(at.id, found),
                at,
                found,
                0,
            ),
            (LogState::Parent { commits, known, at, here, i }, Ok(found)) => self.judge(
                commits,
                known.insert(at.parents[i], found),
                at,
                here,
                i,
            ),
            _ => state,
        }
    }

    /// The state after the bytes of the commit were read.
    pub open spec fn after_data(
        self,
        state: LogState,
        data: Result<Seq<u8>, Seq<char>>,
    ) -> LogState {
        match (state, data) {
            (LogState::Load { .. }, Err(e)) => LogState::Done(Err(AppErrorView::Internal(e))),
            (LogState::Load { commits, known, at }, Ok(data)) => match commit_info_of(
                at.id,
                at.parents,
                data,
            ) {
                Err(e) => LogState::Done(Err(e)),
                Ok(info) => self.proceed(commits.push(info), known),
            },
            _ => state,
        }
    }
}

impl LogState {
    /// The commit whose entry at the path is needed.
    pub open spec fn wanted_entry(self) -> Option<ObjectId> {
        match self {
            LogState::Here { at, .. } => Some(at.id),
            LogState::Parent { at, i, .. } => Some(at.parents[i]),
            _ => None,
        }
    }

    /// The lookups made.
    pub open spec fn known(self) -> Known {
        match self {
            LogState::Next { known, .. } => known,
            LogState::Here { known, .. } => known,
            LogState::Parent { known, .. } => known,
            LogState::Load { known, .. } => known,
            _ => Map::empty(),
        }
    }
}

enum LogPhase {
    Start(ObjectId),
    Next,
    Here(Walked),
    Parent { at: Walked, here: Option<FoundEntry>, i: usize },
    Load(Walked),
    Failed(AppError),
    Done,
}

/// A log that is being made.
pub struct Log {
    path: Option<String>,
    limit: usize,
    commits: Vec<CommitInfo>,
    known: Memo,
    phase: LogPhase,
}

/// The part of the repository that a log needs next.
#[derive(Debug)]
pub enum LogNeed {
    /// A walk through history that starts at this commit, newest commit first.
    Walk(ObjectId),
    /// The next commit of the walk.
    Next,
    /// The entry that stands at this path in the tree of this commit, if any.
    Entry { commit: ObjectId, path: String },
    /// The bytes of this commit.
    Data(ObjectId),
    /// Nothing: the log is finished.
    Nothing,
}

/// The view of a finished log.
pub open spec fn commits_view(r: Result<Vec<CommitInfo>, AppError>) -> Commits {
    match r {
        Ok(commits) => Ok(views(commits@)),
        Err(e) => Err(e@),
    }
}

/// The view of what beginning a walk gave.
pub open spec fn begun_view(begun: Result<(), String>) -> Result<(), Seq<char>> {
    match begun {
        Ok(_) => Ok(()),
        Err(e) => Err(e@),
    }
}

/// The view of what a step of the walk gave.
pub open spec fn next_view(next: Result<Option<Walked>, String>) -> Result<
    Option<WalkedView>,
    Seq<char>,
> {
    match next {
        Ok(at) => Ok(opt_view(at)),
        Err(e) => Err(e@),
    }
}

impl Log {
    /// What the log is asked for.
    pub closed spec fn scope(&self) -> LogScope {
        LogScope { path: opt_view(self.path), limit: self.limit as nat }
    }

    /// How far the log has come.
    pub closed spec fn state(&self) -> LogState {
        let commits = views(self.commits@);
        let known = self.known@;
        match self.phase {
            LogPhase::Start(start) => LogState::Start(start),
            LogPhase::Next => LogState::Next { commits, known },
            LogPhase::Here(at) => LogState::Here { commits, known, at: at@ },
            LogPhase::Parent { at, here, i } => LogState::Parent {
                commits,
                known,
                at: at@,
                here,
                i: i as int,
            },
            LogPhase::Load(at) => LogState::Load { commits, known, at: at@ },
            LogPhase::Failed(e) => LogState::Done(Err(e@)),
            LogPhase::Done => LogState::Done(Ok(commits)),
        }
    }

    /// Nothing is listed or known before the walk begins. Entries are needed only for a path, and
    /// those of a parent only if there is that parent.
    #[verifier::type_invariant]
    closed spec fn wf(&self) -> bool {
        match self.phase {
            LogPhase::Start(_) => self.commits@.len() == 0 && self.known@ == Map::<
                ObjectId,
                Option<FoundEntry>,
            >::empty(),
            LogPhase::Here(_) => self.path is Some,
            LogPhase::Parent { at, i, .. } => self.path is Some && i < at.parents@.len(),
            _ => true,
        }
    }

    /// What the log needs next.
    pub fn need(&self) -> (r: LogNeed)
        ensures
            match self.state() {
                LogState::Start(start) => r == LogNeed::Walk(start),
                LogState::Next { .. } => r is Next,
                LogState::Here { at, .. } => r matches LogNeed::Entry { commit, path } && commit
                    == at.id && Some(path@) == self.scope().path,
                LogState::Parent { at, i, .. } => r matches LogNeed::Entry { commit, path }
                    && commit == at.parents[i] && Some(path@) == self.scope().path,
                LogState::Load { at, .. } => r == LogNeed::Data(at.id),
                LogState::Done(_) => r is Nothing,
            },
    {
        proof {
            use_type_invariant(self);
        }
        match &self.phase {
            LogPhase::Start(start) => LogNeed::Walk(*start),
            LogPhase::Next => LogNeed::Next,
            LogPhase::Here(at) => match &self.path {
                Some(path) => LogNeed::Entry { commit: at.id, path: path.clone() },
                None => LogNeed::Nothing,
            },
            LogPhase::Parent { at, i, .. } => match &self.path {
                Some(path) => LogNeed::Entry { commit: at.parents[*i], path: path.clone() },
                None => LogNeed::Nothing,
            },
            LogPhase::Load(at) => LogNeed::Data(at.id),
            LogPhase::Failed(_) => LogNeed::Nothing,
            LogPhase::Done => LogNeed::Nothing,
        }
    }

    fn failed(self, e: AppError) -> (r: Log)
        ensures
            r.scope() == self.scope(),
            r.state() == LogState::Done(Err(e@)),
    {
        Log {
            path: self.path,
            limit: self.limit,
            commits: self.commits,
            known: self.known,
            phase: LogPhase::Failed(e),
        }
    }

    fn proceed(path: Option<String>, limit: usize, commits: Vec<CommitInfo>, known: Memo) -> (r:
        Log)
        ensures
            r.scope() == (LogScope { path: opt_view(path), limit: limit as nat }),
            r.state() == r.scope().proceed(views(commits@), known@),
    {
        let phase = if commits.len() == limit {
            LogPhase::Done
        } else {
            LogPhase::Next
        };
        Log { path, limit, commits, known, phase }
    }

    fn judge(
        path: Option<String>,
        limit: usize,
        commits: Vec<CommitInfo>,
        known: Memo,
        at: Walked,
        here: Option<FoundEntry>,
        first: usize,
    ) -> (r: Log)
        requires
            path is Some,
            first <= at.parents@.len(),
        ensures
            r.scope() == (LogScope { path: opt_view(path), limit: limit as nat }),
            r.state() == r.scope().judge(views(commits@), known@, at@, here, first as int),
    {
        let ghost scope = LogScope { path: opt_view(path), limit: limit as nat };
        let len: usize = at.parents.len();
        if len == 0 && here.is_none() {
            return Self::proceed(path, limit, commits, known);
        }
        let ghost goal = scope.judge(views(commits@), known@, at@, here, first as int);
        let mut i: usize = first;
        while i < len
            invariant
                len == at.parents@.len(),
                i <= len,
                path is Some,
                !(len == 0 && here is None),
                scope == (LogScope { path: opt_view(path), limit: limit as nat }),
                goal == scope.judge(views(commits@), known@, at@, here, first as int),
                goal == scope.judge(views(commits@), known@, at@, here, i as int),
            ensures
                i == len,
            decreases len - i,
        {
            match known.get(at.parents[i]) {
                None => {
                    return Log {
                        path,
                        limit,
                        commits,
                        known,
                        phase: LogPhase::Parent { at, here, i },
                    };
                },
                Some(found) => {
                    if same_entry(&found, &here) {
                        return Self::proceed(path, limit, commits, known);
                    }
                },
            }
            i = i + 1;
        }
        Log { path, limit, commits, known, phase: LogPhase::Load(at) }
    }

    /// Goes on once the walk has begun.
    pub fn on_walk(self, begun: Result<(), String>) -> (r: Log)
        requires
            self.state() is Start,
        ensures
            r.scope() == self.scope(),
            r.state() == self.scope().after_start(begun_view(begun)),
    {
        proof {
            use_type_invariant(&self);
        }
        match begun {
            Err(e) => self.failed(AppError::internal(e)),
            Ok(_) => {
                assert(views(self.commits@) =~= Seq::<CommitInfoView>::empty());
                Self::proceed(self.path, self.limit, self.commits, self.known)
            },
        }
    }

    /// Goes on with the next commit of the walk, or with its end.
    pub fn on_next(self, next: Result<Option<Walked>, String>) -> (r: Log)
        requires
            self.state() is Next,
        ensures
            r.scope() == self.scope(),
            r.state() == self.scope().after_next(self.state(), next_view(next)),
    {
        let at = match next {
            Err(e) => return self.failed(AppError::internal(e)),
            Ok(None) => return Log {
                path: self.path,
                limit: self.limit,
                commits: self.commits,
                known: self.known,
                phase: LogPhase::Done,
            },
            Ok(Some(at)) => at,
        };
        let Log { path, limit, commits, known, .. } = self;
        if path.is_none() {
            return Log { path, limit, commits, known, phase: LogPhase::Load(at) };
        }
        match known.get(at.id) {
            Some(here) => Self::judge(path, limit, commits, known, at, here, 0),
            None => Log { path, limit, commits, known, phase: LogPhase::Here(at) },
        }
    }

    /// Goes on with what stands at the path.
    pub fn on_entry(self, found: Result<Option<FoundEntry>, String>) -> (r: Log)
        requires
            self.state() is Here || self.state() is Parent,
        ensures
            r.scope() == self.scope(),
            r.state() == self.scope().after_entry(self.state(), found_view(found)),
    {
        proof {
            use_type_invariant(&self);
        }
        let found: Option<FoundEntry> = match found {
            Err(e) => return self.failed(AppError::internal(e)),
            Ok(found) => found,
        };
        let Log { path, limit, commits, known, phase } = self;
        let mut known = known;
        match phase {
            LogPhase::Here(at) => {
                known.insert(at.id, found);
                Self::judge(path, limit, commits, known, at, found, 0)
            },
            LogPhase::Parent { at, here, i } => {
                known.insert(at.parents[i], found);
                Self::judge(path, limit, commits, known, at, here, i)
            },
            phase => Log { path, limit, commits, known, phase },
        }
    }

    /// Goes on with the bytes of the commit.
    pub fn on_data(self, data: Result<Vec<u8>, String>) -> (r: Log)
        requires
            self.state() is Load,
        ensures
            r.scope() == self.scope(),
            r.state() == self.scope().after_data(self.state(), data_view(data)),
    {
        let data = match data {
            Err(e) => return self.failed(AppError::internal(e)),
            Ok(data) => data,
        };
        let info = match &self.phase {
            LogPhase::Load(at) => commit_info(at.id, &at.parents, data.as_slice()),
            _ => return self,
        };
        match info {
            Err(e) => self.failed(e),
            Ok(info) => {
                let mut commits = self.commits;
                proof {
                    lemma_views_push(commits@, info);
                }
                commits.push(info);
                Self::proceed(self.path, self.limit, commits, self.known)
            },
        }
    }

    /// The log, once nothing more is needed.
    pub fn finish(self) -> (r: Result<Vec<CommitInfo>, AppError>)
        requires
            self.state() is Done,
        ensures
            self.state() == LogState::Done(commits_view(r)),
    {
        match self.phase {
            LogPhase::Failed(e) => Err(e),
            _ => Ok(self.commits),
        }
    }
}

/// The normalized path that a log is restricted to; an empty one restricts nothing.
pub open spec fn log_path(path: Option<Seq<char>>) -> Option<Seq<char>> {
    match path {
        Some(path) => if normal_path(path).len() > 0 {
            Some(normal_path(path))
        } else {
            None
        },
        None => None,
    }
}

/// Begins to walk history from `start` newest first. With `path`, keeps only commits whose entry
/// at `path`, its mode or its object, differs from every parent's. Like `git log -- <path>`, a
/// merge that took the entry unchanged from one side is not listed.
pub fn log(start: ObjectId, path: Option<&str>, limit: usize) -> (r: Log)
    ensures
        r.scope() == (LogScope {
            path: log_path(
                match path {
                    Some(path) => Some(path@),
                    None => None,
                },
            ),
            limit: limit as nat,
        }),
        r.state() == LogState::Start(start),
{
    let path: Option<String> = match path {
        Some(path) => {
            let path = normalize(path);
            if path.is_empty() {
                None
            } else {
                Some(path.to_owned())
            }
        },
        None => None,
    };
    Log { path, limit, commits: Vec::new(), known: Memo::new(), phase: LogPhase::Start(start) }
}

/// A repository as a log sees it: the answer to each of its needs.
pub struct LogAnswers {
    /// Whether the walk can begin.
    pub begun: Result<(), Seq<char>>,
    /// What the walk gives, step by step.
    pub walk: Seq<Result<WalkedView, Seq<char>>>,
    /// The entry that stands at a path in the tree of a commit.
    pub entry: spec_fn(ObjectId, Seq<char>) -> Result<Option<FoundEntry>, Seq<char>>,
    /// The bytes of a commit.
    pub data: spec_fn(ObjectId) -> Result<Seq<u8>, Seq<char>>,
}

impl LogAnswers {
    /// What step number `n` of the walk gives.
    pub open spec fn step(self, n: int) -> Result<Option<WalkedView>, Seq<char>> {
        if n >= self.walk.len() {
            Ok(None)
        } else {
            match self.walk[n] {
                Ok(at) => Ok(Some(at)),
                Err(e) => Err(e),
            }
        }
    }
}

/// The state after the need of `state` was answered, `n` steps of the walk having been made.
pub open spec fn answered(
    scope: LogScope,
    state: LogState,
    answers: LogAnswers,
    n: int,
) -> LogState {
    match state {
        LogState::Start(_) => scope.after_start(answers.begun),
        LogState::Next { .. } => scope.after_next(state, answers.step(n)),
        LogState::Here { .. } => scope.after_entry(
            state,
            (answers.entry)(state.wanted_entry()->0, scope.path->0),
        ),
        LogState::Parent { .. } => scope.after_entry(
            state,
            (answers.entry)(state.wanted_entry()->0, scope.path->0),
        ),
        LogState::Load { at, .. } => scope.after_data(state, (answers.data)(at.id)),
        LogState::Done(_) => state,
    }
}

/// How much of the work on one commit is left.
pub open spec fn left(state: LogState) -> int {
    match state {
        LogState::Start(_) => 1,
        LogState::Next { .. } => 0,
        LogState::Here { at, .. } => 3int + at.parents.len(),
        LogState::Parent { at, i, .. } => if i < at.parents.len() {
            2int + at.parents.len() - i
        } else {
            2
        },
        LogState::Load { .. } => 1,
        LogState::Done(_) => 0,
    }
}

/// The log that comes out when every need is answered, one after another, `n` steps of the walk
/// having been made.
pub open spec fn drive(scope: LogScope, state: LogState, answers: LogAnswers, n: int) -> Commits
    decreases answers.walk.len() - n, left(state),
    via drive_terminates
{
    match state {
        LogState::Done(commits) => commits,
        LogState::Next { commits, .. } => if n < answers.walk.len() {
            drive(scope, answered(scope, state, answers, n), answers, n + 1)
        } else {
            Ok(commits)
        },
        _ => drive(scope, answered(scope, state, answers, n), answers, n),
    }
}

#[via_fn]
proof fn drive_terminates(scope: LogScope, state: LogState, answers: LogAnswers, n: int) {
    match state {
        LogState::Here { commits, known, at } => {
            if let Ok(found) = (answers.entry)(at.id, scope.path->0) {
                lemma_judge_goes_on(scope, commits, known.insert(at.id, found), at, found, 0);
            }
        },
        LogState::Parent { commits, known, at, here, i } => {
            if let Ok(found) = (answers.entry)(at.parents[i], scope.path->0) {
                let more = known.insert(at.parents[i], found);
                if i < at.parents.len() && found != here {
                    lemma_judge_goes_on(scope, commits, more, at, here, i + 1);
                }
            }
        },
        _ => {},
    }
}

/// Comparing with the parents comes to an end.
proof fn lemma_judge_goes_on(
    scope: LogScope,
    commits: Seq<CommitInfoView>,
    known: Known,
    at: WalkedView,
    here: Option<FoundEntry>,
    i: int,
)
    ensures
        match scope.judge(commits, known, at, here, i) {
            LogState::Parent { at: a, i: j, .. } => a == at && i <= j < at.parents.len(),
            LogState::Load { .. } => true,
            LogState::Next { .. } => true,
            LogState::Done(_) => true,
            _ => false,
        },
    decreases at.parents.len() - i,
{
    if i < at.parents.len() && known.contains_key(at.parents[i]) && known[at.parents[i]] != here {
        lemma_judge_goes_on(scope, commits, known, at, here, i + 1);
    }
}

/// Whether the parents from number `i` on all hold something else than `here` at the path, or the
/// first failure to tell.
pub open spec fn differs(
    parents: Seq<ObjectId>,
    here: Option<FoundEntry>,
    path: Seq<char>,
    entry: spec_fn(ObjectId, Seq<char>) -> Result<Option<FoundEntry>, Seq<char>>,
    i: int,
) -> Result<bool, Seq<char>>
    decreases parents.len() - i,
{
    if i >= parents.len() {
        Ok(true)
    } else {
        match entry(parents[i], path) {
            Err(e) => Err(e),
            Ok(found) => if found == here {
                Ok(false)
            } else {
                differs(parents, here, path, entry, i + 1)
            },
        }
    }
}

/// [`differs`] for all parents; without parents, whether there is anything at the path.
pub open spec fn differs_from_all(
    parents: Seq<ObjectId>,
    here: Option<FoundEntry>,
    path: Seq<char>,
    entry: spec_fn(ObjectId, Seq<char>) -> Result<Option<FoundEntry>, Seq<char>>,
    i: int,
) -> Result<bool, Seq<char>> {
    if parents.len() == 0 && here is None {
        Ok(false)
    } else {
        differs(parents, here, path, entry, i)
    }
}

/// Whether a commit belongs in the log, or the first failure to tell.
pub open spec fn belongs(scope: LogScope, at: WalkedView, answers: LogAnswers) -> Result<
    bool,
    Seq<char>,
> {
    match scope.path {
        None => Ok(true),
        Some(path) => match (answers.entry)(at.id, path) {
            Err(e) => Err(e),
            Ok(here) => differs_from_all(at.parents, here, path, answers.entry, 0),
        },
    }
}

/// What the log lists of a commit.
pub open spec fn listed(at: WalkedView, answers: LogAnswers) -> Result<
    CommitInfoView,
    AppErrorView,
> {
    match (answers.data)(at.id) {
        Err(e) => Err(AppErrorView::Internal(e)),
        Ok(data) => commit_info_of(at.id, at.parents, data),
    }
}

/// The log with `commits` listed already and `n` steps of the walk made.
pub open spec fn log_from(
    scope: LogScope,
    answers: LogAnswers,
    n: int,
    commits: Seq<CommitInfoView>,
) -> Commits
    decreases answers.walk.len() - n,
{
    if commits.len() == scope.limit || n >= answers.walk.len() {
        Ok(commits)
    } else {
        match answers.walk[n] {
            Err(e) => Err(AppErrorView::Internal(e)),
            Ok(at) => match belongs(scope, at, answers) {
                Err(e) => Err(AppErrorView::Internal(e)),
                Ok(false) => log_from(scope, answers, n + 1, commits),
                Ok(true) => match listed(at, answers) {
                    Err(e) => Err(e),
                    Ok(info) => log_from(scope, answers, n + 1, commits.push(info)),
                },
            },
        }
    }
}

/// The whole log.
pub open spec fn history(scope: LogScope, answers: LogAnswers) -> Commits {
    match answers.begun {
        Err(e) => Err(AppErrorView::Internal(e)),
        Ok(_) => log_from(scope, answers, 0, Seq::empty()),
    }
}

/// Whether what is known is what looking it up would give.
spec fn truthful(scope: LogScope, known: Known, answers: LogAnswers) -> bool {
    forall|id: ObjectId| #[trigger]
        known.contains_key(id) ==> (answers.entry)(id, scope.path->0) == Ok::<_, Seq<char>>(
            known[id],
        )
}

proof fn lemma_drive_proceeds(
    scope: LogScope,
    answers: LogAnswers,
    n: int,
    commits: Seq<CommitInfoView>,
    known: Known,
)
    requires
        0 <= n,
        truthful(scope, known, answers),
    ensures
        drive(scope, scope.proceed(commits, known), answers, n) == log_from(
            scope,
            answers,
            n,
            commits,
        ),
    decreases answers.walk.len() - n, 0int,
{
    reveal_with_fuel(drive, 3);
    let state = scope.proceed(commits, known);
    if commits.len() != scope.limit && n < answers.walk.len() {
        if let Ok(at) = answers.walk[n] {
            let next = scope.consider(commits, known, at);
            assert(drive(scope, state, answers, n) == drive(scope, next, answers, n + 1));
            match scope.path {
                None => {
                    lemma_drive_loads(scope, answers, n + 1, commits, known, at);
                },
                Some(path) => {
                    if known.contains_key(at.id) {
                        lemma_drive_judges(
                            scope,
                            answers,
                            n + 1,
                            commits,
                            known,
                            at,
                            known[at.id],
                            0,
                        );
                    } else if let Ok(here) = (answers.entry)(at.id, path) {
                        let more = known.insert(at.id, here);
                        lemma_drive_judges(scope, answers, n + 1, commits, more, at, here, 0);
                    }
                },
            }
        }
    }
}

/// What comes of a commit that belongs in the log.
spec fn after_loading(
    scope: LogScope,
    answers: LogAnswers,
    n: int,
    commits: Seq<CommitInfoView>,
    at: WalkedView,
) -> Commits {
    match listed(at, answers) {
        Err(e) => Err(e),
        Ok(info) => log_from(scope, answers, n, commits.push(info)),
    }
}

proof fn lemma_drive_loads(
    scope: LogScope,
    answers: LogAnswers,
    n: int,
    commits: Seq<CommitInfoView>,
    known: Known,
    at: WalkedView,
)
    requires
        0 <= n,
        truthful(scope, known, answers),
    ensures
        drive(scope, LogState::Load { commits, known, at }, answers, n) == after_loading(
            scope,
            answers,
            n,
            commits,
            at,
        ),
    decreases answers.walk.len() - n, 1int,
{
    reveal_with_fuel(drive, 2);
    if let Ok(info) = listed(at, answers) {
        lemma_drive_proceeds(scope, answers, n, commits.push(info), known);
    }
}

proof fn lemma_drive_judges(
    scope: LogScope,
    answers: LogAnswers,
    n: int,
    commits: Seq<CommitInfoView>,
    known: Known,
    at: WalkedView,
    here: Option<FoundEntry>,
    i: int,
)
    requires
        0 <= n,
        0 <= i <= at.parents.len(),
        scope.path is Some,
        truthful(scope, known, answers),
    ensures
        drive(scope, scope.judge(commits, known, at, here, i), answers, n)
            == match differs_from_all(at.parents, here, scope.path->0, answers.entry, i) {
            Err(e) => Err(AppErrorView::Internal(e)),
            Ok(false) => log_from(scope, answers, n, commits),
            Ok(true) => after_loading(scope, answers, n, commits, at),
        },
    decreases answers.walk.len() - n, 2 + at.parents.len() - i,
{
    reveal_with_fuel(drive, 2);
    let path = scope.path->0;
    if at.parents.len() == 0 && here is None {
        lemma_drive_proceeds(scope, answers, n, commits, known);
    } else if i == at.parents.len() {
        lemma_drive_loads(scope, answers, n, commits, known, at);
    } else {
        let parent = at.parents[i];
        if let Ok(found) = (answers.entry)(parent, path) {
            let more = if known.contains_key(parent) {
                known
            } else {
                known.insert(parent, found)
            };
            assert(drive(scope, scope.judge(commits, known, at, here, i), answers, n) == drive(
                scope,
                scope.judge(commits, more, at, here, i),
                answers,
                n,
            ));
            if found == here {
                lemma_drive_proceeds(scope, answers, n, commits, more);
            } else {
                lemma_drive_judges(scope, answers, n, commits, more, at, here, i + 1);
            }
        }
    }
}

/// Whatever the repository holds, answering one need after another ends with the log.
pub proof fn law_log_is_the_history(scope: LogScope, start: ObjectId, answers: LogAnswers)
    ensures
        drive(scope, LogState::Start(start), answers, 0) == history(scope, answers),
{
    reveal_with_fuel(drive, 2);
    if answers.begun is Ok {
        lemma_drive_proceeds(scope, answers, 0, Seq::empty(), Map::empty());
    }
}

proof fn lemma_differs(
    parents: Seq<ObjectId>,
    here: Option<FoundEntry>,
    path: Seq<char>,
    entry: spec_fn(ObjectId, Seq<char>) -> Result<Option<FoundEntry>, Seq<char>>,
    i: int,
)
    requires
        0 <= i <= parents.len(),
        forall|j: int| i <= j < parents.len() ==> entry(#[trigger] parents[j], path) is Ok,
    ensures
        differs(parents, here, path, entry, i) == Ok::<_, Seq<char>>(
            forall|j: int|
                i <= j < parents.len() ==> entry(#[trigger] parents[j], path)->Ok_0 != here,
        ),
    decreases parents.len() - i,
{
    if i < parents.len() {
        if entry(parents[i], path)->Ok_0 != here {
            lemma_differs(parents, here, path, entry, i + 1);
            assert forall|j: int|
                (forall|k: int|
                    i + 1 <= k < parents.len() ==> entry(#[trigger] parents[k], path)->Ok_0
                        != here) && i <= j < parents.len() implies entry(
                #[trigger] parents[j],
                path,
            )->Ok_0 != here by {
                if j > i {
                    assert(entry(parents[j], path)->Ok_0 != here);
                }
            }
        }
    }
}

/// With a path, the log keeps exactly the commits whose entry there differs in mode or object from
/// that of every parent; of the commits without parents, those that hold something there.
pub proof fn law_log_keeps_commits_that_changed_the_path(
    scope: LogScope,
    at: WalkedView,
    answers: LogAnswers,
    path: Seq<char>,
)
    requires
        scope.path == Some(path),
        (answers.entry)(at.id, path) is Ok,
        forall|i: int|
            0 <= i < at.parents.len() ==> (answers.entry)(#[trigger] at.parents[i], path) is Ok,
    ensures
        belongs(scope, at, answers) == Ok::<_, Seq<char>>(
            if at.parents.len() == 0 {
                (answers.entry)(at.id, path)->Ok_0 is Some
            } else {
                forall|i: int|
                    0 <= i < at.parents.len() ==> (answers.entry)(#[trigger] at.parents[i], path)
                        != (answers.entry)(at.id, path)
            },
        ),
{
    let entry = answers.entry;
    let here = entry(at.id, path)->Ok_0;
    lemma_differs(at.parents, here, path, entry, 0);
    if at.parents.len() > 0 {
        assert((forall|j: int|
            0 <= j < at.parents.len() ==> entry(#[trigger] at.parents[j], path)->Ok_0 != here) == (
        forall|i: int|
            0 <= i < at.parents.len() ==> entry(#[trigger] at.parents[i], path) != entry(
                at.id,
                path,
            ))) by {
            assert forall|i: int| 0 <= i < at.parents.len() implies (entry(
                #[trigger] at.parents[i],
                path,
            )->Ok_0 != here) == (entry(at.parents[i], path) != entry(at.id, path)) by {}
        }
    }
}

proof fn lemma_not_different(
    parents: Seq<ObjectId>,
    here: Option<FoundEntry>,
    path: Seq<char>,
    entry: spec_fn(ObjectId, Seq<char>) -> Result<Option<FoundEntry>, Seq<char>>,
    i: int,
    j: int,
)
    requires
        0 <= i <= j < parents.len(),
        entry(parents[j], path) == Ok::<_, Seq<char>>(here),
    ensures
        differs(parents, here, path, entry, i) != Ok::<_, Seq<char>>(true),
    decreases j - i,
{
    if i < j {
        lemma_not_different(parents, here, path, entry, i + 1, j);
    }
}

/// A merge that took the entry at the path unchanged from one of its sides is not listed.
pub proof fn law_merge_that_took_one_side_is_not_listed(
    scope: LogScope,
    at: WalkedView,
    answers: LogAnswers,
    path: Seq<char>,
    side: int,
)
    requires
        scope.path == Some(path),
        0 <= side < at.parents.len(),
        (answers.entry)(at.parents[side], path) == (answers.entry)(at.id, path),
    ensures
        belongs(scope, at, answers) != Ok::<_, Seq<char>>(true),
{
    if let Ok(here) = (answers.entry)(at.id, path) {
        lemma_not_different(at.parents, here, path, answers.entry, 0, side);
    }
}

proof fn lemma_shorter_log(
    scope: LogScope,
    fewer: nat,
    answers: LogAnswers,
    n: int,
    commits: Seq<CommitInfoView>,
)
    requires
        commits.len() <= fewer <= scope.limit,
        log_from(scope, answers, n, commits) is Ok,
    ensures
        ({
            let all = log_from(scope, answers, n, commits)->Ok_0;
            let some = LogScope { limit: fewer, ..scope };
            &&& commits.len() <= all.len() <= scope.limit
            &&& all.take(commits.len() as int) == commits
            &&& log_from(some, answers, n, commits) == Ok::<_, AppErrorView>(
                if all.len() <= fewer {
                    all
                } else {
                    all.take(fewer as int)
                },
            )
        }),
    decreases answers.walk.len() - n,
{
    let all = log_from(scope, answers, n, commits)->Ok_0;
    let some = LogScope { limit: fewer, ..scope };
    if commits.len() == scope.limit || n >= answers.walk.len() {
        assert(all.take(commits.len() as int) =~= commits);
    } else {
        let at = answers.walk[n]->Ok_0;
        assert(belongs(some, at, answers) == belongs(scope, at, answers));
        let more = if belongs(scope, at, answers)->Ok_0 {
            commits.push(listed(at, answers)->Ok_0)
        } else {
            commits
        };
        if more.len() <= fewer {
            lemma_shorter_log(scope, fewer, answers, n + 1, more);
        } else {
            lemma_shorter_log(scope, scope.limit, answers, n + 1, more);
        }
        assert(all.take(more.len() as int).take(commits.len() as int) =~= all.take(
            commits.len() as int,
        ));
        assert(more.take(commits.len() as int) =~= commits);
    }
}

/// A log is no longer than its limit, and with a lower limit it is the beginning of the same log.
pub proof fn law_limit_cuts_the_log(scope: LogScope, fewer: nat, answers: LogAnswers)
    requires
        fewer <= scope.limit,
        history(scope, answers) is Ok,
    ensures
        ({
            let all = history(scope, answers)->Ok_0;
            &&& all.len() <= scope.limit
            &&& history(LogScope { limit: fewer, ..scope }, answers) == Ok::<_, AppErrorView>(
                if all.len() <= fewer {
                    all
                } else {
                    all.take(fewer as int)
                },
            )
        }),
{
    lemma_shorter_log(scope, fewer, answers, 0, Seq::empty());
}

/// The commits from step `n` of the walk on that belong in the log, in the order of the walk.
pub open spec fn kept(scope: LogScope, answers: LogAnswers, n: int) -> Seq<CommitInfoView>
    decreases answers.walk.len() - n,
{
    if n >= answers.walk.len() {
        Seq::empty()
    } else {
        let at = answers.walk[n]->Ok_0;
        if belongs(scope, at, answers) == Ok::<_, Seq<char>>(true) {
            seq![listed(at, answers)->Ok_0] + kept(scope, answers, n + 1)
        } else {
            kept(scope, answers, n + 1)
        }
    }
}

/// Whether nothing fails at step `n` of the walk.
pub open spec fn readable(scope: LogScope, answers: LogAnswers, n: int) -> bool {
    &&& answers.walk[n] is Ok
    &&& belongs(scope, answers.walk[n]->Ok_0, answers) is Ok
    &&& listed(answers.walk[n]->Ok_0, answers) is Ok
}

proof fn lemma_log_is_kept(
    scope: LogScope,
    answers: LogAnswers,
    n: int,
    commits: Seq<CommitInfoView>,
)
    requires
        0 <= n,
        commits.len() <= scope.limit,
        forall|i: int| n <= i < answers.walk.len() ==> #[trigger] readable(scope, answers, i),
    ensures
        ({
            let all = commits + kept(scope, answers, n);
            log_from(scope, answers, n, commits) == Ok::<_, AppErrorView>(
                if all.len() <= scope.limit {
                    all
                } else {
                    all.take(scope.limit as int)
                },
            )
        }),
    decreases answers.walk.len() - n,
{
    let rest = kept(scope, answers, n);
    let all = commits + rest;
    if commits.len() == scope.limit {
        if rest.len() == 0 {
            assert(all =~= commits);
        }
        assert(all.take(scope.limit as int) =~= commits);
    } else if n >= answers.walk.len() {
        assert(all =~= commits);
    } else {
        assert(readable(scope, answers, n));
        let at = answers.walk[n]->Ok_0;
        if belongs(scope, at, answers)->Ok_0 {
            let info = listed(at, answers)->Ok_0;
            lemma_log_is_kept(scope, answers, n + 1, commits.push(info));
            assert(all =~= commits.push(info) + kept(scope, answers, n + 1));
        } else {
            lemma_log_is_kept(scope, answers, n + 1, commits);
        }
    }
}

/// Where nothing fails, the log is made of the commits that belong in it, in the order of the
/// walk, up to the limit.
pub proof fn law_log_follows_the_walk(scope: LogScope, answers: LogAnswers)
    requires
        answers.begun is Ok,
        forall|i: int| 0 <= i < answers.walk.len() ==> #[trigger] readable(scope, answers, i),
    ensures
        ({
            let all = kept(scope, answers, 0);
            history(scope, answers) == Ok::<_, AppErrorView>(
                if all.len() <= scope.limit {
                    all
                } else {
                    all.take(scope.limit as int)
                },
            )
        }),
{
    lemma_log_is_kept(scope, answers, 0, Seq::empty());
    assert(Seq::<CommitInfoView>::empty() + kept(scope, answers, 0) =~= kept(scope, answers, 0));
}

proof fn lemma_judge_asks_what_is_unknown(
    scope: LogScope,
    commits: Seq<CommitInfoView>,
    known: Known,
    at: WalkedView,
    here: Option<FoundEntry>,
    i: int,
)
    ensures
        ({
            let next = scope.judge(commits, known, at, here, i);
            &&& next is Done || next.known() == known
            &&& next.wanted_entry() is Some ==> !known.contains_key(next.wanted_entry()->0)
        }),
    decreases at.parents.len() - i,
{
    if i < at.parents.len() && known.contains_key(at.parents[i]) && known[at.parents[i]] != here {
        lemma_judge_asks_what_is_unknown(scope, commits, known, at, here, i + 1);
    }
}

/// No commit is looked up twice: what was found is known from then on, and only what is not known
/// is asked for.
pub proof fn law_no_entry_is_looked_up_twice(
    scope: LogScope,
    state: LogState,
    answers: LogAnswers,
    n: int,
)
    ensures
        ({
            let next = answered(scope, state, answers, n);
            &&& next is Done || match state.wanted_entry() {
                None => next.known() == state.known(),
                Some(id) => next.known() == state.known().insert(
                    id,
                    (answers.entry)(id, scope.path->0)->Ok_0,
                ),
            }
            &&& next.wanted_entry() is Some ==> !next.known().contains_key(
                next.wanted_entry()->0,
            )
        }),
{
    match state {
        LogState::Next { commits, known } => {
            if let Ok(Some(at)) = answers.step(n) {
                lemma_judge_asks_what_is_unknown(scope, commits, known, at, known[at.id], 0);
            }
        },
        LogState::Here { commits, known, at } => {
            if let Ok(found) = (answers.entry)(at.id, scope.path->0) {
                let more = known.insert(at.id, found);
                lemma_judge_asks_what_is_unknown(scope, commits, more, at, found, 0);
            }
        },
        LogState::Parent { commits, known, at, here, i } => {
            if let Ok(found) = (answers.entry)(at.parents[i], scope.path->0) {
                let more = known.insert(at.parents[i], found);
                lemma_judge_asks_what_is_unknown(scope, commits, more, at, here, i);
            }
        },
        _ => {},
    }
}

/// A log is restricted to a path that holds anything but slashes, and then to that path without
/// the slashes at its ends, whatever else it holds. It is unrestricted only without a path, or
/// with one that holds nothing but slashes.
pub proof fn law_log_is_restricted_to_the_trimmed_path(path: Seq<char>) -> (r: (int, int))
    ensures
        0 <= r.0 <= r.1 <= path.len(),
        forall|i: int| 0 <= i < path.len() && !(r.0 <= i < r.1) ==> #[trigger] path[i] == '/',
        (exists|i: int| 0 <= i < path.len() && #[trigger] path[i] != '/') ==> {
            &&& r.0 < r.1
            &&& path[r.0] != '/'
            &&& path[r.1 - 1] != '/'
            &&& log_path(Some(path)) == Some(path.subrange(r.0, r.1))
        },
        (forall|i: int| 0 <= i < path.len() ==> #[trigger] path[i] == '/') ==> log_path(
            Some(path),
        ) is None,
        log_path(None) is None,
{
    let (a, b) = law_only_outer_slashes_are_taken(path);
    (a, b)
}

proof fn lemma_kept_is_filtered(
    scope: LogScope,
    answers: LogAnswers,
    n: int,
    keep: spec_fn(Result<WalkedView, Seq<char>>) -> bool,
    info: spec_fn(Result<WalkedView, Seq<char>>) -> CommitInfoView,
)
    requires
        0 <= n <= answers.walk.len(),
        forall|i: int|
            n <= i < answers.walk.len() ==> keep(#[trigger] answers.walk[i]) == (belongs(
                scope,
                answers.walk[i]->Ok_0,
                answers,
            ) == Ok::<_, Seq<char>>(true)),
        forall|i: int|
            n <= i < answers.walk.len() ==> info(#[trigger] answers.walk[i]) == listed(
                answers.walk[i]->Ok_0,
                answers,
            )->Ok_0,
    ensures
        kept(scope, answers, n) == answers.walk.skip(n).filter(keep).map_values(info),
    decreases answers.walk.len() - n,
{
    let rest = answers.walk.skip(n);
    if n == answers.walk.len() {
        reveal(Seq::filter);
        assert(rest.filter(keep).map_values(info) =~= Seq::empty());
    } else {
        lemma_kept_is_filtered(scope, answers, n + 1, keep, info);
        lemma_filter_front(rest, keep);
        assert(rest.skip(1) =~= answers.walk.skip(n + 1));
        assert(rest[0] == answers.walk[n]);
        let tail = rest.skip(1).filter(keep);
        assert((seq![rest[0]] + tail).map_values(info) =~= seq![info(rest[0])]
            + tail.map_values(info));
    }
}

/// Where nothing fails, the log lists commits of the walk in the order of the walk, up to the
/// limit: all of them without a path; with one, exactly those whose entry at the path differs from
/// the entry at the path in each of its parents, and the commits without parents that hold
/// anything there.
pub proof fn law_log_lists_what_changed(scope: LogScope, start: ObjectId, answers: LogAnswers)
    requires
        answers.begun is Ok,
        forall|i: int| 0 <= i < answers.walk.len() ==> (#[trigger] answers.walk[i]) is Ok,
        forall|i: int|
            0 <= i < answers.walk.len() ==> {
                let at = (#[trigger] answers.walk[i])->Ok_0;
                (answers.data)(at.id) is Ok && commit_info_of(
                    at.id,
                    at.parents,
                    (answers.data)(at.id)->Ok_0,
                ) is Ok
            },
        scope.path matches Some(path) ==> forall|id: ObjectId| #[trigger]
            (answers.entry)(id, path) is Ok,
    ensures
        ({
            let all = answers.walk.filter(
                |step: Result<WalkedView, Seq<char>>|
                    {
                        let at = step->Ok_0;
                        scope.path matches Some(path) ==> if at.parents.len() == 0 {
                            (answers.entry)(at.id, path)->Ok_0 is Some
                        } else {
                            forall|i: int|
                                0 <= i < at.parents.len() ==> (answers.entry)(
                                    #[trigger] at.parents[i],
                                    path,
                                ) != (answers.entry)(at.id, path)
                        }
                    },
            ).map_values(
                |step: Result<WalkedView, Seq<char>>|
                    commit_info_of(
                        step->Ok_0.id,
                        step->Ok_0.parents,
                        (answers.data)(step->Ok_0.id)->Ok_0,
                    )->Ok_0,
            );
            let result = drive(scope, LogState::Start(start), answers, 0);
            &&& all.len() <= scope.limit ==> result == Ok::<_, AppErrorView>(all)
            &&& all.len() > scope.limit ==> result == Ok::<_, AppErrorView>(
                all.take(scope.limit as int),
            )
        }),
{
    let keep = |step: Result<WalkedView, Seq<char>>|
        {
            let at = step->Ok_0;
            scope.path matches Some(path) ==> if at.parents.len() == 0 {
                (answers.entry)(at.id, path)->Ok_0 is Some
            } else {
                forall|i: int|
                    0 <= i < at.parents.len() ==> (answers.entry)(#[trigger] at.parents[i], path)
                        != (answers.entry)(at.id, path)
            }
        };
    let info = |step: Result<WalkedView, Seq<char>>|
        commit_info_of(
            step->Ok_0.id,
            step->Ok_0.parents,
            (answers.data)(step->Ok_0.id)->Ok_0,
        )->Ok_0;
    assert forall|i: int| 0 <= i < answers.walk.len() implies belongs(
        scope,
        (#[trigger] answers.walk[i])->Ok_0,
        answers,
    ) == Ok::<_, Seq<char>>(keep(answers.walk[i])) by {
        if let Some(path) = scope.path {
            law_log_keeps_commits_that_changed_the_path(
                scope,
                answers.walk[i]->Ok_0,
                answers,
                path,
            );
        }
    }
    assert forall|i: int| 0 <= i < answers.walk.len() implies #[trigger] readable(
        scope,
        answers,
        i,
    ) by {
        assert(answers.walk[i] is Ok);
    }
    lemma_kept_is_filtered(scope, answers, 0, keep, info);
    assert(answers.walk.skip(0) =~= answers.walk);
    law_log_follows_the_walk(scope, answers);
    law_log_is_the_history(scope, start, answers);
}

/// A log without a path is the walk itself, up to the limit: the commit at each position is listed
/// at that position, under its own id and with its own parents.
pub proof fn law_unrestricted_log_is_the_walk(limit: nat, start: ObjectId, answers: LogAnswers)
    requires
        answers.begun is Ok,
        forall|i: int| 0 <= i < answers.walk.len() ==> (#[trigger] answers.walk[i]) is Ok,
        forall|i: int|
            0 <= i < answers.walk.len() ==> {
                let at = (#[trigger] answers.walk[i])->Ok_0;
                (answers.data)(at.id) is Ok && commit_info_of(
                    at.id,
                    at.parents,
                    (answers.data)(at.id)->Ok_0,
                ) is Ok
            },
    ensures
        drive(LogScope { path: None, limit }, LogState::Start(start), answers, 0) matches Ok(log)
            && {
            &&& log.len() == if answers.walk.len() <= limit {
                answers.walk.len()
            } else {
                limit
            }
            &&& forall|i: int|
                0 <= i < log.len() ==> {
                    let at = answers.walk[i]->Ok_0;
                    &&& (#[trigger] log[i]).id == at.id.hex()
                    &&& log[i].parents.len() == at.parents.len()
                    &&& forall|j: int|
                        0 <= j < at.parents.len() ==> log[i].parents[j] == (
                        #[trigger] at.parents[j]).hex()
                }
        },
{
    let scope = LogScope { path: None, limit };
    let keep = |step: Result<WalkedView, Seq<char>>| true;
    let info = |step: Result<WalkedView, Seq<char>>|
        commit_info_of(
            step->Ok_0.id,
            step->Ok_0.parents,
            (answers.data)(step->Ok_0.id)->Ok_0,
        )->Ok_0;
    assert forall|i: int| 0 <= i < answers.walk.len() implies #[trigger] readable(
        scope,
        answers,
        i,
    ) by {
        assert(answers.walk[i] is Ok);
    }
    lemma_kept_is_filtered(scope, answers, 0, keep, info);
    assert(answers.walk.skip(0) =~= answers.walk);
    lemma_filter_all(answers.walk, keep);
    law_log_follows_the_walk(scope, answers);
    law_log_is_the_history(scope, start, answers);
    let log = drive(scope, LogState::Start(start), answers, 0)->Ok_0;
    assert forall|i: int| 0 <= i < log.len() implies {
        let at = answers.walk[i]->Ok_0;
        &&& (#[trigger] log[i]).id == at.id.hex()
        &&& log[i].parents.len() == at.parents.len()
        &&& forall|j: int|
            0 <= j < at.parents.len() ==> log[i].parents[j] == (#[trigger] at.parents[j]).hex()
    } by {
        assert(log[i] == info(answers.walk[i]));
    }
}

proof fn lemma_filter_all<T>(s: Seq<T>, keep: spec_fn(T) -> bool)
    requires
        forall|t: T| #[trigger] keep(t),
    ensures
        s.filter(keep) == s,
    decreases s.len(),
{
    reveal(Seq::filter);
    if s.len() > 0 {
        lemma_filter_all(s.drop_last(), keep);
        assert(s.drop_last().push(s.last()) =~= s);
    }
}

/// A log without a path fails with the first step of the walk that fails, or the first commit
/// that cannot be read or decoded, unless the limit is reached before.
pub proof fn law_first_unreadable_commit_fails_the_log(
    limit: nat,
    start: ObjectId,
    answers: LogAnswers,
    n: int,
)
    requires
        answers.begun is Ok,
        0 <= n < answers.walk.len(),
        forall|i: int| 0 <= i < n ==> (#[trigger] answers.walk[i]) is Ok,
        forall|i: int|
            0 <= i < n ==> {
                let at = (#[trigger] answers.walk[i])->Ok_0;
                (answers.data)(at.id) is Ok && commit_info_of(
                    at.id,
                    at.parents,
                    (answers.data)(at.id)->Ok_0,
                ) is Ok
            },
    ensures
        ({
            let log = drive(LogScope { path: None, limit }, LogState::Start(start), answers, 0);
            &&& limit <= n ==> log is Ok
            &&& limit > n ==> (answers.walk[n] matches Err(cause) ==> log == Err::<
                Seq<CommitInfoView>,
                _,
            >(AppErrorView::Internal(cause)))
            &&& limit > n ==> (answers.walk[n] matches Ok(at) ==> (answers.data)(
                at.id,
            ) matches Err(cause) ==> log == Err::<Seq<CommitInfoView>, _>(
                AppErrorView::Internal(cause),
            ))
            &&& limit > n ==> (answers.walk[n] matches Ok(at) ==> (answers.data)(
                at.id,
            ) matches Ok(data) ==> commit_info_of(at.id, at.parents, data) matches Err(e) ==> log
                == Err::<Seq<CommitInfoView>, _>(e))
        }),
{
    law_log_is_the_history(LogScope { path: None, limit }, start, answers);
    lemma_log_reaches(LogScope { path: None, limit }, answers, 0, n, Seq::empty());
}

proof fn lemma_log_reaches(
    scope: LogScope,
    answers: LogAnswers,
    m: int,
    n: int,
    commits: Seq<CommitInfoView>,
)
    requires
        scope.path is None,
        commits.len() == m,
        m <= scope.limit,
        0 <= m <= n < answers.walk.len(),
        forall|i: int| m <= i < n ==> (#[trigger] answers.walk[i]) is Ok,
        forall|i: int|
            m <= i < n ==> {
                let at = (#[trigger] answers.walk[i])->Ok_0;
                (answers.data)(at.id) is Ok && commit_info_of(
                    at.id,
                    at.parents,
                    (answers.data)(at.id)->Ok_0,
                ) is Ok
            },
    ensures
        scope.limit <= n ==> log_from(scope, answers, m, commits) is Ok,
        scope.limit > n ==> exists|more: Seq<CommitInfoView>|
            more.len() == n && log_from(scope, answers, m, commits) == #[trigger] log_from(
                scope,
                answers,
                n,
                more,
            ),
    decreases n - m,
{
    if m < n && commits.len() < scope.limit {
        assert(answers.walk[m] is Ok);
        let at = answers.walk[m]->Ok_0;
        lemma_log_reaches(scope, answers, m + 1, n, commits.push(listed(at, answers)->Ok_0));
    }
}

/// A walk that cannot begin fails the log, and so does a lookup that fails for the first commit,
/// with the cause. Nothing is looked up if no commit may be listed.
pub proof fn law_failed_lookups_fail_the_log(
    scope: LogScope,
    start: ObjectId,
    answers: LogAnswers,
    at: WalkedView,
    path: Seq<char>,
    cause: Seq<char>,
    i: int,
)
    ensures
        ({
            let log = drive(scope, LogState::Start(start), answers, 0);
            let failed = Err::<Seq<CommitInfoView>, _>(AppErrorView::Internal(cause));
            let first = answers.begun is Ok && scope.limit > 0 && scope.path == Some(path)
                && answers.walk.len() > 0 && answers.walk[0] == Ok::<_, Seq<char>>(at);
            &&& answers.begun == Err::<(), _>(cause) ==> log == failed
            &&& answers.begun is Ok && scope.limit == 0 ==> log == Ok::<_, AppErrorView>(
                Seq::<CommitInfoView>::empty(),
            )
            &&& first && (answers.entry)(at.id, path) == Err::<Option<FoundEntry>, _>(cause)
                ==> log == failed
            &&& first && (answers.entry)(at.id, path) is Ok && 0 <= i < at.parents.len() && (forall|
                j: int,
            |
                0 <= j < i ==> (answers.entry)(#[trigger] at.parents[j], path) is Ok && (
                answers.entry)(at.parents[j], path) != (answers.entry)(at.id, path)) && (
            answers.entry)(at.parents[i], path) == Err::<Option<FoundEntry>, _>(cause) ==> log
                == failed
        }),
{
    law_log_is_the_history(scope, start, answers);
    if (answers.entry)(at.id, path) is Ok && 0 <= i < at.parents.len() && (forall|j: int|
        0 <= j < i ==> (answers.entry)(#[trigger] at.parents[j], path) is Ok && (answers.entry)(
            at.parents[j],
            path,
        ) != (answers.entry)(at.id, path)) && (answers.entry)(at.parents[i], path) is Err {
        lemma_lookup_fails(
            at.parents,
            (answers.entry)(at.id, path)->Ok_0,
            path,
            answers.entry,
            0,
            i,
        );
    }
}

proof fn lemma_lookup_fails(
    parents: Seq<ObjectId>,
    here: Option<FoundEntry>,
    path: Seq<char>,
    entry: spec_fn(ObjectId, Seq<char>) -> Result<Option<FoundEntry>, Seq<char>>,
    m: int,
    n: int,
)
    requires
        0 <= m <= n < parents.len(),
        forall|j: int|
            m <= j < n ==> entry(#[trigger] parents[j], path) is Ok && entry(parents[j], path)
                != Ok::<_, Seq<char>>(here),
        entry(parents[n], path) is Err,
    ensures
        differs(parents, here, path, entry, m) == Err::<bool, _>(entry(parents[n], path)->Err_0),
    decreases n - m,
{
    if m < n {
        assert(entry(parents[m], path) is Ok);
        lemma_lookup_fails(parents, here, path, entry, m + 1, n);
    }
}

/// What was read is seen as it was read, and a log with each of its commits.
pub proof fn law_log_is_seen_as_it_is(
    begun: Result<(), String>,
    next: Result<Option<Walked>, String>,
    commits: Result<Vec<CommitInfo>, AppError>,
    at: Walked,
)
    ensures
        begun is Ok ==> begun_view(begun) is Ok,
        begun matches Err(e) ==> begun_view(begun) == Err::<(), Seq<char>>(e@),
        next matches Ok(Some(at)) ==> next_view(next) == Ok::<_, Seq<char>>(Some(at@)),
        next matches Ok(None) ==> next_view(next) == Ok::<Option<WalkedView>, Seq<char>>(None),
        next matches Err(e) ==> next_view(next) == Err::<Option<WalkedView>, Seq<char>>(e@),
        commits matches Ok(all) ==> {
            &&& commits_view(commits) is Ok
            &&& commits_view(commits)->Ok_0.len() == all@.len()
            &&& forall|i: int|
                0 <= i < all@.len() ==> #[trigger] commits_view(commits)->Ok_0[i] == all@[i]@
        },
        commits matches Err(e) ==> commits_view(commits) == Err::<Seq<CommitInfoView>, _>(e@),
        at@.id == at.id,
        at@.parents == at.parents@,
{
}

/// Where the walk ends, the log ends with all the commits listed so far; where it fails, so does
/// the log, whatever is listed.
pub proof fn law_end_of_the_walk_ends_the_log(
    scope: LogScope,
    commits: Seq<CommitInfoView>,
    known: Known,
    cause: Seq<char>,
)
    ensures
        scope.after_next(LogState::Next { commits, known }, Ok(None)) == LogState::Done(
            Ok(commits),
        ),
        scope.after_next(LogState::Next { commits, known }, Err(cause)) == LogState::Done(
            Err(AppErrorView::Internal(cause)),
        ),
{
}

/// Wherever a log has come to, a read that fails ends it with the cause, however many commits are
/// listed already; so does a commit that cannot be decoded.
pub proof fn law_any_failed_read_fails_the_log(
    scope: LogScope,
    state: LogState,
    data: Seq<u8>,
    cause: Seq<char>,
)
    ensures
        scope.after_start(Err(cause)) == LogState::Done(Err(AppErrorView::Internal(cause))),
        state is Next ==> scope.after_next(state, Err(cause)) == LogState::Done(
            Err(AppErrorView::Internal(cause)),
        ),
        state is Here || state is Parent ==> scope.after_entry(state, Err(cause))
            == LogState::Done(Err(AppErrorView::Internal(cause))),
        state is Load ==> scope.after_data(state, Err(cause)) == LogState::Done(
            Err(AppErrorView::Internal(cause)),
        ),
        state matches LogState::Load { at, .. } ==> commit_info_of(at.id, at.parents, data)
            matches Err(e) ==> scope.after_data(state, Ok(data)) == LogState::Done(Err(e)),
{
}

/// A commit that was decoded is listed after those listed before it. The log ends with it exactly
/// if that makes as many as were asked for, and else goes on to the next commit of the walk.
pub proof fn law_decoded_commit_is_listed_last(
    scope: LogScope,
    commits: Seq<CommitInfoView>,
    known: Known,
    at: WalkedView,
    data: Seq<u8>,
)
    requires
        commit_info_of(at.id, at.parents, data) is Ok,
    ensures
        ({
            let more = commits + seq![commit_info_of(at.id, at.parents, data)->Ok_0];
            let next = scope.after_data(LogState::Load { commits, known, at }, Ok(data));
            &&& commits.len() + 1 == scope.limit ==> next == LogState::Done(Ok(more))
            &&& commits.len() + 1 != scope.limit ==> next == (LogState::Next {
                commits: more,
                known,
            })
        }),
        scope.limit == 0 ==> scope.after_start(Ok(())) == LogState::Done(Ok(Seq::empty())),
        scope.limit > 0 ==> scope.after_start(Ok(())) == (LogState::Next {
            commits: Seq::empty(),
            known: Map::empty(),
        }),
{
    let info = commit_info_of(at.id, at.parents, data)->Ok_0;
    assert(commits.push(info) =~= commits + seq![info]);
}

/// A commit of the walk is read at once if no path was asked for. With one, what it holds there is
/// looked up first, unless that is known.
pub proof fn law_walked_commit_is_considered(
    scope: LogScope,
    commits: Seq<CommitInfoView>,
    known: Known,
    at: WalkedView,
)
    ensures
        ({
            let next = scope.after_next(LogState::Next { commits, known }, Ok(Some(at)));
            &&& scope.path is None ==> next == (LogState::Load { commits, known, at })
            &&& scope.path is Some && !known.contains_key(at.id) ==> next == (LogState::Here {
                commits,
                known,
                at,
            })
            &&& scope.path is Some && known.contains_key(at.id) ==> next == scope.judge(
                commits,
                known,
                at,
                known[at.id],
                0,
            )
        }),
{
}

/// What was looked up is known from then on, and the commit is judged by it: what it holds itself
/// is compared with its parents from the first on, and what a parent holds from that parent on.
pub proof fn law_lookups_lead_to_judgement(
    scope: LogScope,
    commits: Seq<CommitInfoView>,
    known: Known,
    at: WalkedView,
    here: Option<FoundEntry>,
    i: int,
    found: Option<FoundEntry>,
)
    ensures
        scope.after_entry(LogState::Here { commits, known, at }, Ok(found)) == scope.judge(
            commits,
            known.insert(at.id, found),
            at,
            found,
            0,
        ),
        scope.after_entry(LogState::Parent { commits, known, at, here, i }, Ok(found))
            == scope.judge(commits, known.insert(at.parents[i], found), at, here, i),
{
}

/// A commit is judged by its parents in order. The first parent that holds the same at the path
/// passes it over, and the first whose entry is not known has to be looked up; a commit that
/// differs from all of them is to be listed. One without parents is passed over exactly if it holds
/// nothing.
pub proof fn law_commits_are_judged_by_their_parents(
    scope: LogScope,
    commits: Seq<CommitInfoView>,
    known: Known,
    at: WalkedView,
    here: Option<FoundEntry>,
    from: int,
    n: int,
)
    requires
        0 <= from <= n <= at.parents.len(),
        forall|j: int|
            from <= j < n ==> known.contains_key(#[trigger] at.parents[j])
                && known[at.parents[j]] != here,
    ensures
        ({
            let next = scope.judge(commits, known, at, here, from);
            let passed = if commits.len() == scope.limit {
                LogState::Done(Ok(commits))
            } else {
                LogState::Next { commits, known }
            };
            &&& at.parents.len() == 0 && here is None ==> next == passed
            &&& n == at.parents.len() && (n > 0 || here is Some) ==> next == (LogState::Load {
                commits,
                known,
                at,
            })
            &&& n < at.parents.len() && !known.contains_key(at.parents[n]) ==> next == (
            LogState::Parent { commits, known, at, here, i: n })
            &&& n < at.parents.len() && known.contains_key(at.parents[n])
                && known[at.parents[n]] == here ==> next == passed
        }),
    decreases n - from,
{
    if from < n {
        assert(known.contains_key(at.parents[from]) && known[at.parents[from]] != here);
        law_commits_are_judged_by_their_parents(scope, commits, known, at, here, from + 1, n);
    }
}

} // verus!
