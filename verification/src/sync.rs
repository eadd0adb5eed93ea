//! One sync of the mirror with its upstream.
//!
//! [`SyncRun`] says what it needs next: a git command to be run or a part of the cache to be read.
//! The caller does that and hands in what came of it, until the sync is done.
use vstd::prelude::*;
use vstd::utf8::encode_utf8;

use crate::decode::{text_of, to_text};
use crate::git::{
    first_target, head_target, law_commands_say_what_they_do, symref_target, texts, ArgView,
    Credentials, CredentialsView, GitCommand, GitCommandView, CREDENTIAL_HELPER,
};
use crate::mirror::{SyncError, SyncErrorView};
use crate::object_id::{same_id, ObjectId};
use crate::text::{
    has_prefix, lemma_views_push, lines, opt_view, res_view, same_bytes, views,
};
use crate::url::{check_view, text_bytes};

verus! {

/// The repository that is mirrored.
#[derive(Debug)]
pub struct Upstream {
    pub url: String,
    pub credentials: Option<Credentials>,
    /// Whether the mirror does without file contents until they are needed.
    pub blobless: bool,
}

/// The view of an [`Upstream`].
#[verifier::ext_equal]
pub struct UpstreamView {
    pub url: Seq<char>,
    pub credentials: Option<CredentialsView>,
    pub blobless: bool,
}

impl View for Upstream {
    type V = UpstreamView;

    open spec fn view(&self) -> UpstreamView {
        UpstreamView {
            url: self.url@,
            credentials: opt_view(self.credentials),
            blobless: self.blobless,
        }
    }
}

/// A ref and the object that it points to; a symbolic ref points to none.
#[derive(Debug)]
pub struct RawRef {
    pub name: Vec<u8>,
    pub target: Option<ObjectId>,
}

/// The view of a [`RawRef`].
#[verifier::ext_equal]
pub struct RawRefView {
    pub name: Seq<u8>,
    pub target: Option<ObjectId>,
}

impl View for RawRef {
    type V = RawRefView;

    open spec fn view(&self) -> RawRefView {
        RawRefView { name: self.name@, target: self.target }
    }
}

/// What reading one ref gave: the ref, or why it cannot be read.
#[derive(Debug)]
pub struct RawRefRead {
    pub result: Result<RawRef, String>,
}

impl View for RawRefRead {
    type V = Result<RawRefView, Seq<char>>;

    open spec fn view(&self) -> Result<RawRefView, Seq<char>> {
        res_view(self.result)
    }
}

/// The name of a ref and the object that it points to.
#[derive(Debug)]
pub struct RefTarget {
    pub name: String,
    pub target: Option<ObjectId>,
}

impl View for RefTarget {
    type V = (Seq<char>, Option<ObjectId>);

    open spec fn view(&self) -> (Seq<char>, Option<ObjectId>) {
        (self.name@, self.target)
    }
}

/// Every ref and its target.
pub type RefState = Seq<(Seq<char>, Option<ObjectId>)>;

/// Every ref and its target, or the first failure to read one.
pub open spec fn targets(reads: Seq<Result<RawRefView, Seq<char>>>) -> Result<
    RefState,
    SyncErrorView,
>
    decreases reads.len(),
{
    if reads.len() == 0 {
        Ok(Seq::empty())
    } else {
        match targets(reads.drop_last()) {
            Err(e) => Err(e),
            Ok(refs) => match reads.last() {
                Err(e) => Err(SyncErrorView::Git(e)),
                Ok(r) => Ok(refs.push((text_of(r.name), r.target))),
            },
        }
    }
}

/// Every ref and its target, or the first failure; iterating may have failed as a whole.
pub open spec fn all_targets(
    reads: Result<Seq<Result<RawRefView, Seq<char>>>, Seq<char>>,
) -> Result<RefState, SyncErrorView> {
    match reads {
        Err(e) => Err(SyncErrorView::Git(e)),
        Ok(reads) => targets(reads),
    }
}

/// The view of what iterating the refs gave.
pub open spec fn ref_reads_view(reads: Result<Vec<RawRefRead>, String>) -> Result<
    Seq<Result<RawRefView, Seq<char>>>,
    Seq<char>,
> {
    match reads {
        Ok(reads) => Ok(views(reads@)),
        Err(e) => Err(e@),
    }
}

proof fn lemma_first_failure(reads: Seq<Result<RawRefView, Seq<char>>>, i: int)
    requires
        0 <= i < reads.len(),
        targets(reads.take(i + 1)) is Err,
    ensures
        targets(reads) == targets(reads.take(i + 1)),
    decreases reads.len(),
{
    if i + 1 == reads.len() {
        assert(reads.take(i + 1) =~= reads);
    } else {
        assert(reads.drop_last().take(i + 1) =~= reads.take(i + 1));
        lemma_first_failure(reads.drop_last(), i);
    }
}

/// Every ref and its target, to tell whether a fetch changed anything.
pub fn ref_state(reads: Result<Vec<RawRefRead>, String>) -> (r: Result<Vec<RefTarget>, SyncError>)
    ensures
        match r {
            Ok(refs) => all_targets(ref_reads_view(reads)) == Ok::<_, SyncErrorView>(views(refs@)),
            Err(e) => all_targets(ref_reads_view(reads)) == Err::<RefState, _>(e@),
        },
{
    let ghost want = all_targets(ref_reads_view(reads));
    let found = match reads {
        Ok(found) => found,
        Err(e) => return Err(SyncError::git(e)),
    };
    let ghost all = views(found@);
    let mut refs: Vec<RefTarget> = Vec::new();
    assert(views(refs@) =~= Seq::<(Seq<char>, Option<ObjectId>)>::empty());
    assert(all.take(0) =~= Seq::<Result<RawRefView, Seq<char>>>::empty());
    for read in it: found
        invariant
            want == all_targets(ref_reads_view(reads)),
            want == targets(all),
            all == views(it.seq()),
            targets(all.take(it.index() as int)) == Ok::<_, SyncErrorView>(views(refs@)),
    {
        let ghost i = it.index() as int;
        proof {
            assert(all.take(i + 1).drop_last() =~= all.take(i));
            assert(all.take(i + 1).last() == read@);
        }
        match read.result {
            Ok(raw) => {
                let next = RefTarget { name: to_text(raw.name.as_slice()), target: raw.target };
                proof {
                    lemma_views_push(refs@, next);
                }
                refs.push(next);
            },
            Err(e) => {
                proof {
                    lemma_first_failure(all, i);
                }
                return Err(SyncError::git(e));
            },
        }
    }
    assert(all.take(all.len() as int) =~= all);
    Ok(refs)
}

/// Whether two readings of the refs agree.
pub fn same_refs(a: &Vec<RefTarget>, b: &Vec<RefTarget>) -> (r: bool)
    ensures
        r == (views(a@) == views(b@)),
{
    let len: usize = a.len();
    if b.len() != len {
        assert(views(a@).len() != views(b@).len());
        return false;
    }
    for i in 0..len
        invariant
            len == a@.len(),
            len == b@.len(),
            forall|j: int| 0 <= j < i ==> (#[trigger] a@[j])@ == b@[j]@,
    {
        if a[i].name != b[i].name || !same_id(&a[i].target, &b[i].target) {
            assert(views(a@)[i as int] != views(b@)[i as int]);
            return false;
        }
    }
    assert(views(a@) =~= views(b@));
    true
}

/// What was read of the cache's HEAD: the full name of the branch that it names, if it names one,
/// and whether the upstream's default branch exists in the cache.
#[derive(Debug)]
pub struct HeadRead {
    pub current: Option<Vec<u8>>,
    pub exists: bool,
}

/// The view of a [`HeadRead`].
#[verifier::ext_equal]
pub struct HeadReadView {
    pub current: Option<Seq<u8>>,
    pub exists: bool,
}

impl View for HeadRead {
    type V = HeadReadView;

    open spec fn view(&self) -> HeadReadView {
        HeadReadView { current: opt_view(self.current), exists: self.exists }
    }
}

/// Whether HEAD has to be moved to `target`: it names another branch or none, and `target` exists.
pub open spec fn head_needs_update(read: HeadReadView, target: Seq<char>) -> bool {
    read.exists && read.current != Some(text_bytes(target))
}

/// Whether HEAD has to be moved to `target`.
pub fn needs_update(read: &HeadRead, target: &str) -> (r: bool)
    ensures
        r == head_needs_update(read@, target@),
{
    match &read.current {
        Some(current) => read.exists && !same_bytes(current.as_slice(), target.as_bytes()),
        None => read.exists,
    }
}

/// How far a sync has come.
pub enum SyncState {
    /// The cache dir has to be emptied: what is in it is left over from a clone that was killed.
    Clear,
    /// The upstream has to be cloned.
    Clone,
    /// The commit-graph has to be written.
    Graph,
    /// The clone has to be opened.
    Open,
    /// The refs have to be read.
    Before,
    /// The upstream has to be fetched.
    Fetch { before: RefState },
    /// The refs have to be read again.
    After { before: RefState },
    /// The upstream has to be asked for its HEAD.
    LsRemote,
    /// The cache's HEAD has to be compared with `target`.
    Head { target: Seq<char> },
    /// The cache's HEAD has to be pointed to `target`.
    SymbolicRef { target: Seq<char> },
    Done(Result<(), SyncErrorView>),
}

/// A sync: how far it has come, whether the cache holds a repository, and whether the upstream's
/// HEAD was compared since startup.
pub struct SyncView {
    pub state: SyncState,
    pub has_repo: bool,
    pub head_checked: bool,
}

impl SyncView {
    /// The beginning of a sync.
    pub open spec fn start(has_repo: bool, head_checked: bool) -> SyncView {
        SyncView {
            state: if has_repo {
                SyncState::Before
            } else {
                SyncState::Clear
            },
            has_repo,
            head_checked,
        }
    }

    /// The same sync in another state.
    pub open spec fn at(self, state: SyncState) -> SyncView {
        SyncView { state, ..self }
    }

    /// The sync ended with an error.
    pub open spec fn failed(self, e: SyncErrorView) -> SyncView {
        self.at(SyncState::Done(Err(e)))
    }

    /// The sync ended well.
    pub open spec fn done(self) -> SyncView {
        self.at(SyncState::Done(Ok(())))
    }

    /// The sync ended well, and HEAD was compared with the upstream's.
    pub open spec fn done_with_head(self) -> SyncView {
        SyncView { head_checked: true, ..self.done() }
    }

    /// The command that has to be run, if one has.
    pub open spec fn command(self, upstream: UpstreamView) -> Option<GitCommandView> {
        match self.state {
            SyncState::Clone => Some(
                GitCommandView::clone(upstream.credentials, upstream.url, upstream.blobless),
            ),
            SyncState::Graph => Some(GitCommandView::commit_graph(upstream.credentials)),
            SyncState::Fetch { .. } => Some(GitCommandView::fetch(upstream.credentials)),
            SyncState::LsRemote => Some(GitCommandView::ls_remote(upstream.credentials)),
            SyncState::SymbolicRef { target } => Some(
                GitCommandView::symbolic_ref(upstream.credentials, target),
            ),
            _ => None,
        }
    }

    /// Goes on once the cache dir is empty.
    pub open spec fn after_clear(self, cleared: Result<(), SyncErrorView>) -> SyncView {
        match cleared {
            Err(e) => self.failed(e),
            Ok(_) => self.at(SyncState::Clone),
        }
    }

    /// Goes on with what running the command gave. Without a commit-graph, or with HEAD as it is,
    /// the mirror can still be served.
    pub open spec fn after_run(self, output: Result<Seq<char>, SyncErrorView>) -> SyncView {
        match (self.state, output) {
            (SyncState::Clone, Err(e)) => self.failed(e),
            (SyncState::Clone, Ok(_)) => self.at(SyncState::Graph),
            (SyncState::Graph, _) => self.at(SyncState::Open),
            (SyncState::Fetch { .. }, Err(e)) => self.failed(e),
            (SyncState::Fetch { before }, Ok(_)) => self.at(SyncState::After { before }),
            (SyncState::LsRemote, Err(_)) => self.done(),
            (SyncState::LsRemote, Ok(out)) => match first_target(lines(out)) {
                None => self.done_with_head(),
                Some(target) => self.at(SyncState::Head { target }),
            },
            (SyncState::SymbolicRef { .. }, Err(_)) => self.done(),
            (SyncState::SymbolicRef { .. }, Ok(_)) => self.done_with_head(),
            _ => self,
        }
    }

    /// Goes on once the clone is open. Clone sets HEAD from the upstream.
    pub open spec fn after_open(self, opened: Result<(), Seq<char>>) -> SyncView {
        match opened {
            Err(e) => self.failed(SyncErrorView::Git(e)),
            Ok(_) => SyncView { has_repo: true, ..self.done_with_head() },
        }
    }

    /// Goes on with the refs. HEAD is compared after refs changed and once per process start.
    pub open spec fn after_refs(self, refs: Result<RefState, SyncErrorView>) -> SyncView {
        match (self.state, refs) {
            (SyncState::Before, Err(e)) => self.failed(e),
            (SyncState::Before, Ok(before)) => self.at(SyncState::Fetch { before }),
            (SyncState::After { .. }, Err(e)) => self.failed(e),
            (SyncState::After { before }, Ok(after)) => if after != before || !self.head_checked {
                self.at(SyncState::LsRemote)
            } else {
                self.done()
            },
            _ => self,
        }
    }

    /// Goes on with the cache's HEAD.
    pub open spec fn after_head(self, read: Result<HeadReadView, Seq<char>>) -> SyncView {
        match (self.state, read) {
            (SyncState::Head { .. }, Err(_)) => self.done(),
            (SyncState::Head { target }, Ok(read)) => if head_needs_update(read, target) {
                self.at(SyncState::SymbolicRef { target })
            } else {
                self.done_with_head()
            },
            _ => self,
        }
    }
}

enum SyncPhase {
    Clear,
    Clone,
    Graph,
    Open,
    Before,
    Fetch { before: Vec<RefTarget> },
    After { before: Vec<RefTarget> },
    LsRemote,
    Head { target: String },
    SymbolicRef { target: String },
    Done(Result<(), SyncError>),
}

/// A sync that is being made.
pub struct SyncRun {
    phase: SyncPhase,
    has_repo: bool,
    head_checked: bool,
}

/// What a sync needs next.
#[derive(Debug)]
pub enum SyncNeed {
    /// Everything inside the cache dir is to be removed.
    ClearDir,
    /// This command is to be run.
    Run(GitCommand),
    /// The repository in the cache dir is to be opened.
    Open,
    /// The refs of the repository are to be read.
    Refs,
    /// HEAD of the repository is to be read, and whether this ref exists in it.
    Head(String),
    /// Nothing: the sync is finished.
    Nothing,
}

/// The view of what opening the clone gave.
pub open spec fn opened_view(opened: Result<(), String>) -> Result<(), Seq<char>> {
    match opened {
        Ok(_) => Ok(()),
        Err(e) => Err(e@),
    }
}

/// The view of what reading the refs gave.
pub open spec fn refs_view(refs: Result<Vec<RefTarget>, SyncError>) -> Result<
    RefState,
    SyncErrorView,
> {
    match refs {
        Ok(refs) => Ok(views(refs@)),
        Err(e) => Err(e@),
    }
}

impl View for SyncRun {
    type V = SyncView;

    closed spec fn view(&self) -> SyncView {
        SyncView {
            state: match self.phase {
                SyncPhase::Clear => SyncState::Clear,
                SyncPhase::Clone => SyncState::Clone,
                SyncPhase::Graph => SyncState::Graph,
                SyncPhase::Open => SyncState::Open,
                SyncPhase::Before => SyncState::Before,
                SyncPhase::Fetch { before } => SyncState::Fetch { before: views(before@) },
                SyncPhase::After { before } => SyncState::After { before: views(before@) },
                SyncPhase::LsRemote => SyncState::LsRemote,
                SyncPhase::Head { target } => SyncState::Head { target: target@ },
                SyncPhase::SymbolicRef { target } => SyncState::SymbolicRef { target: target@ },
                SyncPhase::Done(r) => SyncState::Done(check_view(r)),
            },
            has_repo: self.has_repo,
            head_checked: self.head_checked,
        }
    }
}

impl SyncRun {
    /// Begins a sync.
    pub fn start(has_repo: bool, head_checked: bool) -> (r: SyncRun)
        ensures
            r@ == SyncView::start(has_repo, head_checked),
    {
        let phase = if has_repo {
            SyncPhase::Before
        } else {
            SyncPhase::Clear
        };
        SyncRun { phase, has_repo, head_checked }
    }

    fn at(&self, phase: SyncPhase) -> (r: SyncRun)
        ensures
            r.phase == phase,
            r.has_repo == self.has_repo,
            r.head_checked == self.head_checked,
    {
        SyncRun { phase, has_repo: self.has_repo, head_checked: self.head_checked }
    }

    fn failed(&self, e: SyncError) -> (r: SyncRun)
        ensures
            r@ == self@.failed(e@),
    {
        self.at(SyncPhase::Done(Err(e)))
    }

    fn done(&self) -> (r: SyncRun)
        ensures
            r@ == self@.done(),
    {
        self.at(SyncPhase::Done(Ok(())))
    }

    fn done_with_head(&self) -> (r: SyncRun)
        ensures
            r@ == self@.done_with_head(),
    {
        SyncRun {
            phase: SyncPhase::Done(Ok(())),
            has_repo: self.has_repo,
            head_checked: true,
        }
    }

    /// What the sync needs next.
    pub fn need(&self, upstream: &Upstream) -> (r: SyncNeed)
        ensures
            match self@.state {
                SyncState::Clear => r is ClearDir,
                SyncState::Open => r is Open,
                SyncState::Before => r is Refs,
                SyncState::After { .. } => r is Refs,
                SyncState::Head { target } => r matches SyncNeed::Head(name) && name@ == target,
                SyncState::Done(_) => r is Nothing,
                _ => r matches SyncNeed::Run(command) && Some(command@) == self@.command(
                    upstream@,
                ),
            },
    {
        match &self.phase {
            SyncPhase::Clear => SyncNeed::ClearDir,
            SyncPhase::Clone => SyncNeed::Run(
                GitCommand::clone(
                    &upstream.credentials,
                    upstream.url.as_str(),
                    upstream.blobless,
                ),
            ),
            SyncPhase::Graph => SyncNeed::Run(GitCommand::commit_graph(&upstream.credentials)),
            SyncPhase::Open => SyncNeed::Open,
            SyncPhase::Before => SyncNeed::Refs,
            SyncPhase::Fetch { .. } => SyncNeed::Run(GitCommand::fetch(&upstream.credentials)),
            SyncPhase::After { .. } => SyncNeed::Refs,
            SyncPhase::LsRemote => SyncNeed::Run(GitCommand::ls_remote(&upstream.credentials)),
            SyncPhase::Head { target } => SyncNeed::Head(target.clone()),
            SyncPhase::SymbolicRef { target } => SyncNeed::Run(
                GitCommand::symbolic_ref(&upstream.credentials, target.as_str()),
            ),
            SyncPhase::Done(_) => SyncNeed::Nothing,
        }
    }

    /// Goes on once the cache dir is empty.
    pub fn on_clear(self, cleared: Result<(), SyncError>) -> (r: SyncRun)
        requires
            self@.state is Clear,
        ensures
            r@ == self@.after_clear(check_view(cleared)),
    {
        match cleared {
            Err(e) => self.failed(e),
            Ok(_) => self.at(SyncPhase::Clone),
        }
    }

    /// Goes on with what running the command gave.
    pub fn on_run(self, output: Result<String, SyncError>) -> (r: SyncRun)
        requires
            self@.state is Clone || self@.state is Graph || self@.state is Fetch
                || self@.state is LsRemote || self@.state is SymbolicRef,
        ensures
            r@ == self@.after_run(res_view(output)),
    {
        let SyncRun { phase, has_repo, head_checked } = self;
        let same = SyncRun { phase: SyncPhase::LsRemote, has_repo, head_checked };
        match (phase, output) {
            (SyncPhase::Clone, Err(e)) => same.failed(e),
            (SyncPhase::Clone, Ok(_)) => same.at(SyncPhase::Graph),
            (SyncPhase::Graph, _) => same.at(SyncPhase::Open),
            (SyncPhase::Fetch { .. }, Err(e)) => same.failed(e),
            (SyncPhase::Fetch { before }, Ok(_)) => same.at(SyncPhase::After { before }),
            (SyncPhase::LsRemote, Err(_)) => same.done(),
            (SyncPhase::LsRemote, Ok(out)) => match symref_target(out.as_str()) {
                None => same.done_with_head(),
                Some(target) => same.at(SyncPhase::Head { target }),
            },
            (SyncPhase::SymbolicRef { .. }, Err(_)) => same.done(),
            (SyncPhase::SymbolicRef { .. }, Ok(_)) => same.done_with_head(),
            (phase, _) => same.at(phase),
        }
    }

    /// Goes on once the clone is open.
    pub fn on_open(self, opened: Result<(), String>) -> (r: SyncRun)
        requires
            self@.state is Open,
        ensures
            r@ == self@.after_open(opened_view(opened)),
    {
        match opened {
            Err(e) => self.failed(SyncError::git(e)),
            Ok(_) => SyncRun { phase: SyncPhase::Done(Ok(())), has_repo: true, head_checked: true },
        }
    }

    /// Goes on with the refs.
    pub fn on_refs(self, refs: Result<Vec<RefTarget>, SyncError>) -> (r: SyncRun)
        requires
            self@.state is Before || self@.state is After,
        ensures
            r@ == self@.after_refs(refs_view(refs)),
    {
        let refs = match refs {
            Err(e) => return self.failed(e),
            Ok(refs) => refs,
        };
        match &self.phase {
            SyncPhase::After { before } => if !same_refs(&refs, before) || !self.head_checked {
                self.at(SyncPhase::LsRemote)
            } else {
                self.done()
            },
            _ => self.at(SyncPhase::Fetch { before: refs }),
        }
    }

    /// Goes on with the cache's HEAD.
    pub fn on_head(self, read: Result<HeadRead, String>) -> (r: SyncRun)
        requires
            self@.state is Head,
        ensures
            r@ == self@.after_head(res_view(read)),
    {
        let read = match read {
            Err(_) => return self.done(),
            Ok(read) => read,
        };
        let SyncRun { phase, has_repo, head_checked } = self;
        let same = SyncRun { phase: SyncPhase::LsRemote, has_repo, head_checked };
        match phase {
            SyncPhase::Head { target } => if needs_update(&read, target.as_str()) {
                same.at(SyncPhase::SymbolicRef { target })
            } else {
                same.done_with_head()
            },
            phase => same.at(phase),
        }
    }

    /// What the sync came to, once nothing more is needed: its result, whether the cache holds a
    /// repository, and whether HEAD was compared with the upstream's.
    pub fn finish(self) -> (r: (Result<(), SyncError>, bool, bool))
        requires
            self@.state is Done,
        ensures
            self@ == (SyncView {
                state: SyncState::Done(check_view(r.0)),
                has_repo: r.1,
                head_checked: r.2,
            }),
    {
        match self.phase {
            SyncPhase::Done(result) => (result, self.has_repo, self.head_checked),
            _ => (Ok(()), self.has_repo, self.head_checked),
        }
    }
}

/// What comes of each step of a sync.
pub struct SyncAnswers {
    pub cleared: Result<(), SyncErrorView>,
    pub clone: Result<Seq<char>, SyncErrorView>,
    pub graph: Result<Seq<char>, SyncErrorView>,
    pub opened: Result<(), Seq<char>>,
    pub before: Result<RefState, SyncErrorView>,
    pub fetch: Result<Seq<char>, SyncErrorView>,
    pub after: Result<RefState, SyncErrorView>,
    pub ls_remote: Result<Seq<char>, SyncErrorView>,
    /// HEAD of the cache, and whether a ref exists.
    pub head: spec_fn(Seq<char>) -> Result<HeadReadView, Seq<char>>,
    /// Pointing HEAD to a ref.
    pub symbolic_ref: spec_fn(Seq<char>) -> Result<Seq<char>, SyncErrorView>,
}

/// A sync after its need was answered.
pub open spec fn answered(sync: SyncView, answers: SyncAnswers) -> SyncView {
    match sync.state {
        SyncState::Clear => sync.after_clear(answers.cleared),
        SyncState::Clone => sync.after_run(answers.clone),
        SyncState::Graph => sync.after_run(answers.graph),
        SyncState::Open => sync.after_open(answers.opened),
        SyncState::Before => sync.after_refs(answers.before),
        SyncState::Fetch { .. } => sync.after_run(answers.fetch),
        SyncState::After { .. } => sync.after_refs(answers.after),
        SyncState::LsRemote => sync.after_run(answers.ls_remote),
        SyncState::Head { target } => sync.after_head((answers.head)(target)),
        SyncState::SymbolicRef { target } => sync.after_run((answers.symbolic_ref)(target)),
        SyncState::Done(_) => sync,
    }
}

/// How many steps are left at most.
pub open spec fn left(state: SyncState) -> int {
    match state {
        SyncState::Clear => 4,
        SyncState::Clone => 3,
        SyncState::Graph => 2,
        SyncState::Open => 1,
        SyncState::Before => 6,
        SyncState::Fetch { .. } => 5,
        SyncState::After { .. } => 4,
        SyncState::LsRemote => 3,
        SyncState::Head { .. } => 2,
        SyncState::SymbolicRef { .. } => 1,
        SyncState::Done(_) => 0,
    }
}

/// The sync when every need was answered, one after another.
pub open spec fn drive(sync: SyncView, answers: SyncAnswers) -> SyncView
    decreases left(sync.state),
{
    if sync.state is Done {
        sync
    } else {
        drive(answered(sync, answers), answers)
    }
}

/// Whether HEAD of the cache could be brought in line with the upstream's: it is where it should
/// be, or could be moved there, or the upstream says no branch to follow.
pub open spec fn head_followed(answers: SyncAnswers) -> bool {
    match answers.ls_remote {
        Err(_) => false,
        Ok(out) => match first_target(lines(out)) {
            None => true,
            Some(target) => match (answers.head)(target) {
                Err(_) => false,
                Ok(read) => head_needs_update(read, target) ==> (answers.symbolic_ref)(
                    target,
                ) is Ok,
            },
        },
    }
}

/// The result of a clone.
pub open spec fn clone_result(answers: SyncAnswers) -> Result<(), SyncErrorView> {
    match answers.cleared {
        Err(e) => Err(e),
        Ok(_) => match answers.clone {
            Err(e) => Err(e),
            Ok(_) => match answers.opened {
                Err(e) => Err(SyncErrorView::Git(e)),
                Ok(_) => Ok(()),
            },
        },
    }
}

/// The result of a fetch: whether it changed the refs.
pub open spec fn fetch_result(answers: SyncAnswers) -> Result<bool, SyncErrorView> {
    match answers.before {
        Err(e) => Err(e),
        Ok(before) => match answers.fetch {
            Err(e) => Err(e),
            Ok(_) => match answers.after {
                Err(e) => Err(e),
                Ok(after) => Ok(after != before),
            },
        },
    }
}

/// What a sync comes to.
pub open spec fn synced(has_repo: bool, head_checked: bool, answers: SyncAnswers) -> SyncView {
    if !has_repo {
        SyncView {
            state: SyncState::Done(clone_result(answers)),
            has_repo: clone_result(answers) is Ok,
            head_checked: head_checked || clone_result(answers) is Ok,
        }
    } else {
        match fetch_result(answers) {
            Err(e) => SyncView { state: SyncState::Done(Err(e)), has_repo, head_checked },
            Ok(_) => SyncView {
                state: SyncState::Done(Ok(())),
                has_repo,
                head_checked: head_checked || head_followed(answers),
            },
        }
    }
}

/// Whatever comes of its steps, a sync ends, and clones where there is no repository yet and
/// fetches where there is one.
pub proof fn law_sync_clones_or_fetches(has_repo: bool, head_checked: bool, answers: SyncAnswers)
    ensures
        drive(SyncView::start(has_repo, head_checked), answers) == synced(
            has_repo,
            head_checked,
            answers,
        ),
{
    reveal_with_fuel(drive, 7);
}

/// A sync that failed leaves things as they were: no repository comes or goes, and HEAD counts as
/// compared only if it did before.
pub proof fn law_failed_sync_changes_nothing(
    has_repo: bool,
    head_checked: bool,
    answers: SyncAnswers,
)
    requires
        synced(has_repo, head_checked, answers).state matches SyncState::Done(Err(_)),
    ensures
        synced(has_repo, head_checked, answers).has_repo == has_repo,
        synced(has_repo, head_checked, answers).head_checked == head_checked,
{
}

/// Once the cache holds a repository, it keeps holding one.
pub proof fn law_repository_stays(head_checked: bool, answers: SyncAnswers)
    ensures
        synced(true, head_checked, answers).has_repo,
{
}

/// Trouble with the commit-graph or with HEAD does not make a sync fail.
pub proof fn law_side_errors_do_not_fail_a_sync(
    has_repo: bool,
    head_checked: bool,
    a: SyncAnswers,
    b: SyncAnswers,
)
    requires
        b == (SyncAnswers {
            graph: b.graph,
            ls_remote: b.ls_remote,
            head: b.head,
            symbolic_ref: b.symbolic_ref,
            ..a
        }),
    ensures
        synced(has_repo, head_checked, a).state == synced(has_repo, head_checked, b).state,
        synced(has_repo, head_checked, a).has_repo == synced(has_repo, head_checked, b).has_repo,
{
}

/// A fetch that found nothing new asks nothing more of the upstream once HEAD was compared; until
/// it was, every sync compares it.
pub proof fn law_upstream_head_is_asked_for_when_needed(
    sync: SyncView,
    before: RefState,
    after: RefState,
)
    requires
        sync.state == (SyncState::After { before }),
    ensures
        sync.after_refs(Ok(after)).state is LsRemote <==> after != before || !sync.head_checked,
        !(sync.after_refs(Ok(after)).state is LsRemote) ==> sync.after_refs(Ok(after))
            == sync.done(),
{
}

proof fn lemma_target_is_a_branch(lines: Seq<Seq<char>>)
    ensures
        first_target(lines) is Some ==> has_prefix(first_target(lines)->0, "refs/heads/"@),
    decreases lines.len(),
{
    if lines.len() > 0 && head_target(lines[0]) is None {
        lemma_target_is_a_branch(lines.skip(1));
    }
}

/// HEAD is only ever moved to a branch that the upstream's HEAD points to and that exists in the
/// cache, and only if it is not there already.
pub proof fn law_head_moves_to_existing_branches_only(
    sync: SyncView,
    out: Seq<char>,
    read: HeadReadView,
)
    requires
        sync.state is LsRemote,
    ensures
        ({
            let asked = sync.after_run(Ok(out));
            let compared = asked.after_head(Ok(read));
            asked.state matches SyncState::Head { target } ==> {
                &&& has_prefix(target, "refs/heads/"@)
                &&& first_target(lines(out)) == Some(target)
                &&& compared.state == (SyncState::SymbolicRef { target }) <==> read.exists
                    && read.current != Some(text_bytes(target))
                &&& compared.state is SymbolicRef || compared == asked.done_with_head()
            }
        }),
{
    lemma_target_is_a_branch(lines(out));
}

/// Every command of a sync runs with the credentials that are configured for the upstream, whatever
/// the command is: its environment holds their user and their token, and its arguments name the
/// helper under their key. Without credentials there are none.
pub proof fn law_every_command_of_a_sync_is_authorized(
    sync: SyncView,
    upstream: UpstreamView,
    c: CredentialsView,
)
    ensures
        upstream.credentials == Some(c) ==> (sync.command(upstream) matches Some(command) ==> {
            &&& command.env == seq![
                ("GIT_SERVE_TOKEN_USER"@, c.user),
                ("GIT_SERVE_TOKEN"@, c.token),
                ("GIT_TERMINAL_PROMPT"@, "0"@),
            ]
            &&& command.args.len() > 14
            &&& command.args[10] == ArgView::Text("-c"@)
            &&& command.args[11] == ArgView::Text(c.helper_key + "="@)
            &&& command.args[12] == ArgView::Text("-c"@)
            &&& command.args[13] == ArgView::Text(c.helper_key + "="@ + CREDENTIAL_HELPER@)
        }),
        upstream.credentials is None ==> (sync.command(upstream) matches Some(command)
            ==> command.env == seq![("GIT_TERMINAL_PROMPT"@, "0"@)]),
        sync.state is Clone || sync.state is Fetch || sync.state is LsRemote ==> sync.command(
            upstream,
        ) is Some,
{
    if let Some(command) = sync.command(upstream) {
        if upstream.credentials == Some(c) {
            assert(command.env =~= seq![
                ("GIT_SERVE_TOKEN_USER"@, c.user),
                ("GIT_SERVE_TOKEN"@, c.token),
                ("GIT_TERMINAL_PROMPT"@, "0"@),
            ]);
        }
        if upstream.credentials is None {
            assert(command.env =~= seq![("GIT_TERMINAL_PROMPT"@, "0"@)]);
        }
    }
}

/// Each step of a sync that runs git runs the command that the step is for, on the upstream that
/// is configured, and no other step runs git.
pub proof fn law_each_step_runs_its_own_command(sync: SyncView, upstream: UpstreamView)
    ensures
        sync.command(upstream) is Some <==> sync.state is Clone || sync.state is Graph
            || sync.state is Fetch || sync.state is LsRemote || sync.state is SymbolicRef,
        sync.command(upstream) matches Some(command) ==> {
            let n = if upstream.credentials is Some {
                14int
            } else {
                10int
            };
            let dir = seq![ArgView::Text("--git-dir"@), ArgView::CacheDir];
            &&& command.input is None
            &&& sync.state is Clone ==> command.what == "clone"@ && command.args.skip(n) == texts(
                seq!["clone"@, "--bare"@, "--quiet"@, "--origin"@, "origin"@],
            ) + (if upstream.blobless {
                texts(seq!["--filter=blob:none"@])
            } else {
                Seq::empty()
            }) + texts(seq!["--"@, upstream.url]) + seq![ArgView::CacheDir]
            &&& sync.state is Graph ==> command.what == "commit-graph"@ && command.args.skip(n)
                == dir + texts(seq!["commit-graph"@, "write"@, "--reachable"@])
            &&& sync.state is Fetch ==> command.what == "fetch"@ && command.args.skip(n) == dir
                + texts(
                seq![
                    "fetch"@,
                    "--prune"@,
                    "--quiet"@,
                    "--no-write-fetch-head"@,
                    "origin"@,
                    "+refs/heads/*:refs/heads/*"@,
                    "+refs/tags/*:refs/tags/*"@,
                ],
            )
            &&& sync.state is LsRemote ==> command.what == "ls-remote"@ && command.args.skip(n)
                == dir + texts(seq!["ls-remote"@, "--symref"@, "origin"@, "HEAD"@])
            &&& sync.state matches SyncState::SymbolicRef { target } ==> command.what
                == "symbolic-ref"@ && command.args.skip(n) == dir + texts(
                seq!["symbolic-ref"@, "HEAD"@, target],
            )
        },
{
    if let Some(command) = sync.command(upstream) {
        let target = if let SyncState::SymbolicRef { target } = sync.state {
            target
        } else {
            Seq::empty()
        };
        law_commands_say_what_they_do(upstream.credentials, upstream.url, target, Seq::empty());
        let n = if upstream.credentials is Some {
            14int
        } else {
            10int
        };
        assert(texts(seq!["--git-dir"@]).push(ArgView::CacheDir) =~= seq![
            ArgView::Text("--git-dir"@),
            ArgView::CacheDir,
        ]);
        if sync.state is Clone {
            assert(command.args.skip(n) =~= texts(
                seq!["clone"@, "--bare"@, "--quiet"@, "--origin"@, "origin"@],
            ) + (if upstream.blobless {
                texts(seq!["--filter=blob:none"@])
            } else {
                Seq::empty()
            }) + texts(seq!["--"@, upstream.url]) + seq![ArgView::CacheDir]);
        }
    }
}

/// The steps of a clone follow one another: the cache dir is emptied, then the upstream is cloned,
/// then the commit-graph is written, then the clone is opened. A step that fails ends the sync with
/// its error, but for the commit-graph. Only opening the clone makes it the repository.
pub proof fn law_clone_goes_step_by_step(
    sync: SyncView,
    out: Seq<char>,
    e: SyncErrorView,
    cause: Seq<char>,
)
    ensures
        SyncView::start(false, sync.head_checked) == (SyncView {
            state: SyncState::Clear,
            has_repo: false,
            head_checked: sync.head_checked,
        }),
        sync.after_clear(Ok(())) == (SyncView { state: SyncState::Clone, ..sync }),
        sync.after_clear(Err(e)) == (SyncView { state: SyncState::Done(Err(e)), ..sync }),
        sync.state is Clone ==> {
            &&& sync.after_run(Ok(out)) == (SyncView { state: SyncState::Graph, ..sync })
            &&& sync.after_run(Err(e)) == (SyncView { state: SyncState::Done(Err(e)), ..sync })
        },
        sync.state is Graph ==> {
            &&& sync.after_run(Ok(out)) == (SyncView { state: SyncState::Open, ..sync })
            &&& sync.after_run(Err(e)) == (SyncView { state: SyncState::Open, ..sync })
        },
        sync.after_open(Ok(())) == (SyncView {
            state: SyncState::Done(Ok(())),
            has_repo: true,
            head_checked: true,
        }),
        sync.after_open(Err(cause)) == (SyncView {
            state: SyncState::Done(Err(SyncErrorView::Git(cause))),
            ..sync
        }),
{
}

/// The steps of a fetch follow one another: the refs are read, the upstream is fetched, and the
/// refs are read again. A step that fails ends the sync with its error. The refs of the first
/// reading are those that the second is compared with.
pub proof fn law_fetch_goes_step_by_step(
    sync: SyncView,
    refs: RefState,
    out: Seq<char>,
    e: SyncErrorView,
)
    ensures
        SyncView::start(true, sync.head_checked) == (SyncView {
            state: SyncState::Before,
            has_repo: true,
            head_checked: sync.head_checked,
        }),
        sync.state is Before ==> {
            &&& sync.after_refs(Ok(refs)) == (SyncView {
                state: SyncState::Fetch { before: refs },
                ..sync
            })
            &&& sync.after_refs(Err(e)) == (SyncView { state: SyncState::Done(Err(e)), ..sync })
        },
        sync.state matches SyncState::Fetch { before } ==> {
            &&& sync.after_run(Ok(out)) == (SyncView { state: SyncState::After { before }, ..sync })
            &&& sync.after_run(Err(e)) == (SyncView { state: SyncState::Done(Err(e)), ..sync })
        },
        sync.state matches SyncState::After { before } ==> {
            &&& sync.after_refs(Err(e)) == (SyncView { state: SyncState::Done(Err(e)), ..sync })
            &&& refs == before && sync.head_checked ==> sync.after_refs(Ok(refs)) == (SyncView {
                state: SyncState::Done(Ok(())),
                ..sync
            })
            &&& refs != before || !sync.head_checked ==> sync.after_refs(Ok(refs)) == (SyncView {
                state: SyncState::LsRemote,
                ..sync
            })
        },
{
}

/// What follows the question for the upstream's HEAD never fails the sync. HEAD counts as compared
/// exactly if the upstream names no branch, or the branch that it names is where HEAD is, or does
/// not exist, or could be made HEAD.
pub proof fn law_head_goes_step_by_step(
    sync: SyncView,
    out: Seq<char>,
    read: HeadReadView,
    e: SyncErrorView,
    cause: Seq<char>,
)
    ensures
        sync.state is LsRemote ==> {
            &&& sync.after_run(Err(e)) == (SyncView { state: SyncState::Done(Ok(())), ..sync })
            &&& first_target(lines(out)) is None ==> sync.after_run(Ok(out)) == (SyncView {
                state: SyncState::Done(Ok(())),
                head_checked: true,
                ..sync
            })
            &&& first_target(lines(out)) matches Some(target) ==> sync.after_run(Ok(out)) == (
            SyncView { state: SyncState::Head { target }, ..sync })
        },
        sync.state matches SyncState::Head { target } ==> {
            let stays = !read.exists || read.current == Some(encode_utf8(target));
            &&& sync.after_head(Err(cause)) == (SyncView {
                state: SyncState::Done(Ok(())),
                ..sync
            })
            &&& stays ==> sync.after_head(Ok(read)) == (SyncView {
                state: SyncState::Done(Ok(())),
                head_checked: true,
                ..sync
            })
            &&& !stays ==> sync.after_head(Ok(read)) == (SyncView {
                state: SyncState::SymbolicRef { target },
                ..sync
            })
        },
        sync.state is SymbolicRef ==> {
            &&& sync.after_run(Err(e)) == (SyncView { state: SyncState::Done(Ok(())), ..sync })
            &&& sync.after_run(Ok(out)) == (SyncView {
                state: SyncState::Done(Ok(())),
                head_checked: true,
                ..sync
            })
        },
{
}

/// What a sync comes to, by what came of its steps: it succeeds exactly if no step fails that it
/// cannot do without, and else it ends with the error of the first of them that failed.
pub proof fn law_sync_ends_by_its_steps(has_repo: bool, head_checked: bool, answers: SyncAnswers)
    ensures
        ({
            let end = drive(SyncView::start(has_repo, head_checked), answers);
            &&& end.state is Done
            &&& !has_repo ==> {
                &&& answers.cleared matches Err(e) ==> end.state == SyncState::Done(Err(e))
                &&& answers.cleared is Ok && answers.clone is Err ==> end.state == SyncState::Done(
                    Err(answers.clone->Err_0),
                )
                &&& answers.cleared is Ok && answers.clone is Ok && answers.opened is Err
                    ==> end.state == SyncState::Done(
                    Err(SyncErrorView::Git(answers.opened->Err_0)),
                )
                &&& answers.cleared is Ok && answers.clone is Ok && answers.opened is Ok
                    ==> end.state == SyncState::Done(Ok(())) && end.has_repo && end.head_checked
            }
            &&& has_repo ==> {
                &&& end.has_repo
                &&& answers.before matches Err(e) ==> end.state == SyncState::Done(Err(e))
                &&& answers.before is Ok && answers.fetch is Err ==> end.state == SyncState::Done(
                    Err(answers.fetch->Err_0),
                )
                &&& answers.before is Ok && answers.fetch is Ok && answers.after is Err
                    ==> end.state == SyncState::Done(Err(answers.after->Err_0))
                &&& answers.before is Ok && answers.fetch is Ok && answers.after is Ok
                    ==> end.state == SyncState::Done(Ok(()))
                &&& answers.before is Ok && answers.fetch is Ok && answers.after is Ok
                    && !head_checked ==> (end.head_checked <==> answers.ls_remote is Ok
                    && match first_target(lines(answers.ls_remote->Ok_0)) {
                    None => true,
                    Some(branch) => (answers.head)(branch) is Ok && (!(answers.head)(
                        branch,
                    )->Ok_0.exists || (answers.head)(branch)->Ok_0.current == Some(
                        encode_utf8(branch),
                    ) || (answers.symbolic_ref)(branch) is Ok),
                })
            }
            &&& head_checked ==> end.head_checked
            &&& end.state != SyncState::Done(Ok(())) ==> end.has_repo == has_repo
                && end.head_checked == head_checked
        }),
{
    reveal_with_fuel(drive, 7);
}

/// Every ref that was read is there with its name and its own target, in order; and reading fails
/// with the first ref that fails.
pub proof fn law_every_ref_is_compared(reads: Seq<Result<RawRefView, Seq<char>>>, n: int)
    requires
        0 <= n <= reads.len(),
        forall|i: int| 0 <= i < n ==> (#[trigger] reads[i]) is Ok,
    ensures
        n == reads.len() ==> (all_targets(Ok(reads)) matches Ok(refs) && {
            &&& refs.len() == reads.len()
            &&& forall|i: int|
                0 <= i < reads.len() ==> (#[trigger] refs[i]).0 == text_of(reads[i]->Ok_0.name)
                    && refs[i].1 == reads[i]->Ok_0.target
        }),
        n < reads.len() && reads[n] is Err ==> all_targets(Ok(reads)) == Err::<RefState, _>(
            SyncErrorView::Git(reads[n]->Err_0),
        ),
    decreases reads.len(),
{
    if reads.len() > 0 {
        let front = reads.drop_last();
        let m = if n == reads.len() {
            n - 1
        } else {
            n
        };
        assert forall|i: int| 0 <= i < m implies (#[trigger] front[i]) is Ok by {
            assert(front[i] == reads[i]);
        }
        law_every_ref_is_compared(front, m);
        if n < front.len() {
            assert(front[n] == reads[n]);
        }
        if n == reads.len() {
            let refs = targets(reads)->Ok_0;
            let before = targets(front)->Ok_0;
            assert(reads[n - 1] is Ok);
            assert forall|i: int| 0 <= i < reads.len() implies (#[trigger] refs[i]).0 == text_of(
                reads[i]->Ok_0.name,
            ) && refs[i].1 == reads[i]->Ok_0.target by {
                if i < front.len() {
                    assert(refs[i] == before[i]);
                    assert(front[i] == reads[i]);
                }
            }
        }
    }
}

/// HEAD is moved exactly if the branch exists and HEAD does not name it already, byte for byte.
pub proof fn law_head_is_moved_to_what_exists(read: HeadReadView, target: Seq<char>)
    ensures
        head_needs_update(read, target) <==> read.exists && (read.current is None
            || read.current->0 != encode_utf8(target)),
{
}

/// What was read is seen as it was read.
pub proof fn law_sync_reads_are_seen_as_they_are(
    upstream: Upstream,
    raw: RawRef,
    read: RawRefRead,
    target: RefTarget,
    head: HeadRead,
    opened: Result<(), String>,
    refs: Result<Vec<RefTarget>, SyncError>,
    reads: Result<Vec<RawRefRead>, String>,
)
    ensures
        upstream@.url == upstream.url@,
        upstream@.blobless == upstream.blobless,
        upstream.credentials matches Some(c) ==> upstream@.credentials == Some(c@),
        upstream.credentials is None ==> upstream@.credentials is None,
        raw@.name == raw.name@,
        raw@.target == raw.target,
        read.result matches Ok(r) ==> read@ == Ok::<_, Seq<char>>(r@),
        read.result matches Err(e) ==> read@ == Err::<RawRefView, Seq<char>>(e@),
        target@ == (target.name@, target.target),
        head.current matches Some(name) ==> head@.current == Some(name@),
        head.current is None ==> head@.current is None,
        head@.exists == head.exists,
        opened is Ok ==> opened_view(opened) is Ok,
        opened matches Err(e) ==> opened_view(opened) == Err::<(), Seq<char>>(e@),
        refs matches Ok(all) ==> {
            &&& refs_view(refs) is Ok
            &&& refs_view(refs)->Ok_0.len() == all@.len()
            &&& forall|i: int|
                0 <= i < all@.len() ==> #[trigger] refs_view(refs)->Ok_0[i] == all@[i]@
        },
        refs matches Err(e) ==> refs_view(refs) == Err::<RefState, _>(e@),
        reads matches Ok(all) ==> {
            &&& ref_reads_view(reads) is Ok
            &&& ref_reads_view(reads)->Ok_0.len() == all@.len()
            &&& forall|i: int|
                0 <= i < all@.len() ==> #[trigger] ref_reads_view(reads)->Ok_0[i] == all@[i]@
        },
        reads matches Err(e) ==> ref_reads_view(reads) == Err::<
            Seq<Result<RawRefView, Seq<char>>>,
            Seq<char>,
        >(e@),
        reads matches Err(e) ==> all_targets(ref_reads_view(reads)) == Err::<RefState, _>(
            SyncErrorView::Git(e@),
        ),
{
}

} // verus!
