//! Keeps the bare mirror in the cache dir in step with the upstream repository.
//!
//! A single background worker runs every git command, so concurrent requests share one sync.
//! Requests call [`Mirror::ensure_fresh`]: within the TTL of the last attempt they are answered
//! from the cache, otherwise they wait for a sync. A failed sync leaves the cache as it was,
//! and it is served stale until a later attempt succeeds.
use vstd::prelude::*;
use vstd::string::*;
use vstd::utf8::encode_utf8;

pub use crate::status::Status;

use crate::config::{MirrorConfig, MirrorConfigView};
use crate::decode::{text_of, to_text};
use crate::git::{
    fetch_missing, fetch_missing_command, Credentials, CredentialsView, GitCommand, Held,
};
use crate::status::{StatusView, Timestamp};
use crate::sync::{
    drive, law_sync_clones_or_fetches, SyncAnswers, SyncRun, SyncState, SyncView, Upstream,
    UpstreamView,
};
use crate::text::{opt_view, res_view};
use crate::url::{
    check_origin, check_view, origin_check, origin_of, parse, text_bytes, url_of, Url, UrlView,
};

verus! {

/// Why the mirror cannot be opened or brought up to date.
#[derive(Debug)]
pub enum SyncError {
    PasswordInUrl,
    Io { path: String, source: String },
    NotARepo { path: String, source: String },
    UrlMismatch { expected: String, found: String },
    Git(String),
}

/// The view of a [`SyncError`].
pub enum SyncErrorView {
    PasswordInUrl,
    Io { path: Seq<char>, source: Seq<char> },
    NotARepo { path: Seq<char>, source: Seq<char> },
    UrlMismatch { expected: Seq<char>, found: Seq<char> },
    Git(Seq<char>),
}

impl View for SyncError {
    type V = SyncErrorView;

    open spec fn view(&self) -> SyncErrorView {
        match self {
            SyncError::PasswordInUrl => SyncErrorView::PasswordInUrl,
            SyncError::Io { path, source } => SyncErrorView::Io { path: path@, source: source@ },
            SyncError::NotARepo { path, source } => SyncErrorView::NotARepo {
                path: path@,
                source: source@,
            },
            SyncError::UrlMismatch { expected, found } => SyncErrorView::UrlMismatch {
                expected: expected@,
                found: found@,
            },
            SyncError::Git(e) => SyncErrorView::Git(e@),
        }
    }
}

/// A text in quotation marks, with escapes where it needs them.
pub uninterp spec fn quoted_text(text: Seq<char>) -> Seq<char>;

/// Formats `text` with std's `Debug` for `str`. Which characters it escapes, and how, is left to
/// the name.
#[verifier::external_body]
pub(crate) fn quoted(text: &str) -> (r: String)
    ensures
        r@ == quoted_text(text@),
{
    format!("{text:?}")
}

impl SyncErrorView {
    /// The text of the error.
    pub open spec fn message(self) -> Seq<char> {
        match self {
            SyncErrorView::PasswordInUrl =>
                "repository URL must not contain a password; pass the token in GIT_SERVE_TOKEN"@,
            SyncErrorView::Io { path, source } => "cannot read cache dir "@ + path + ": "@ + source,
            SyncErrorView::NotARepo { path, source } => "cache dir "@ + path
                + " is not empty and not a git repository: "@ + source,
            SyncErrorView::UrlMismatch { expected, found } => mismatch_text(
                quoted_text(expected),
                quoted_text(found),
            ),
            SyncErrorView::Git(e) => e,
        }
    }
}

/// The text of a mismatch between two URLs, given in quotation marks.
pub open spec fn mismatch_text(expected: Seq<char>, found: Seq<char>) -> Seq<char> {
    "cache dir remote \"origin\" is "@ + found + ", expected "@ + expected
}

/// The text of a mismatch between two URLs, given in quotation marks.
pub fn mismatch(expected: &str, found: &str) -> (r: String)
    ensures
        r@ == mismatch_text(expected@, found@),
{
    "cache dir remote \"origin\" is ".to_owned().concat(found).concat(", expected ").concat(
        expected,
    )
}

impl SyncError {
    /// An error of git with the text of its cause.
    pub fn git(cause: String) -> (r: SyncError)
        ensures
            r@ == SyncErrorView::Git(cause@),
    {
        SyncError::Git(cause)
    }

    /// The text of the error.
    pub fn message(&self) -> (r: String)
        ensures
            r@ == self@.message(),
    {
        match self {
            SyncError::PasswordInUrl =>
                "repository URL must not contain a password; pass the token in GIT_SERVE_TOKEN".to_owned(),
            SyncError::Io { path, source } => "cannot read cache dir ".to_owned().concat(
                path.as_str(),
            ).concat(": ").concat(source.as_str()),
            SyncError::NotARepo { path, source } => "cache dir ".to_owned().concat(
                path.as_str(),
            ).concat(" is not empty and not a git repository: ").concat(source.as_str()),
            SyncError::UrlMismatch { expected, found } => mismatch(
                quoted(expected.as_str()).as_str(),
                quoted(found.as_str()).as_str(),
            ),
            SyncError::Git(e) => e.clone(),
        }
    }
}

/// The error of whatever needs a repository while the cache holds none.
pub fn no_repo() -> (r: SyncError)
    ensures
        r@ == SyncErrorView::Git("cache holds no repository"@),
{
    SyncError::Git("cache holds no repository".to_owned())
}

/// The URL that a mirror is made of, which must be one and must not hold a password.
pub open spec fn url_check(url: Seq<char>) -> Result<UrlView, SyncErrorView> {
    match url_of(text_bytes(url)) {
        Err(e) => Err(SyncErrorView::Git(e)),
        Ok(parsed) => if parsed.password is Some {
            Err(SyncErrorView::PasswordInUrl)
        } else {
            Ok(parsed)
        },
    }
}

/// Checks the URL that a mirror is made of: it must be one and must not hold a password.
pub fn check_url(url: &str) -> (r: Result<Url, SyncError>)
    ensures
        res_view(r) == url_check(url@),
        r matches Ok(parsed) ==> parsed@.valid(),
{
    match parse(url.as_bytes()) {
        Err(e) => Err(SyncError::git(e)),
        Ok(parsed) => if parsed.password.is_some() {
            Err(SyncError::PasswordInUrl)
        } else {
            Ok(parsed)
        },
    }
}

/// What was found in the cache dir.
#[derive(Debug)]
pub enum CacheRead {
    /// There is no such dir.
    Missing,
    /// The dir cannot be listed.
    Failed(String),
    Empty,
    Filled(RepoRead),
}

/// What a dir that is not empty holds.
#[derive(Debug)]
pub enum RepoRead {
    /// No repository; the text says why it cannot be opened.
    NoRepo(String),
    /// A repository whose remote has the URL `origin`. The real paths are those of the URLs'
    /// local paths, as far as they have one.
    Repo {
        origin: Option<Vec<u8>>,
        real_origin: Option<Vec<u8>>,
        real_url: Option<Vec<u8>>,
    },
}

/// Whether a dir is missing or empty.
pub open spec fn emptiness(dir: Seq<char>, read: CacheRead) -> Result<bool, SyncErrorView> {
    match read {
        CacheRead::Missing => Ok(true),
        CacheRead::Failed(e) => Err(SyncErrorView::Io { path: dir, source: e@ }),
        CacheRead::Empty => Ok(true),
        CacheRead::Filled(_) => Ok(false),
    }
}

/// Whether the dir that is called `dir` in errors is missing or empty.
pub fn is_empty_dir(dir: &str, read: &CacheRead) -> (r: Result<bool, SyncError>)
    ensures
        match r {
            Ok(empty) => emptiness(dir@, *read) == Ok::<_, SyncErrorView>(empty),
            Err(e) => emptiness(dir@, *read) == Err::<bool, _>(e@),
        },
{
    match read {
        CacheRead::Missing => Ok(true),
        CacheRead::Failed(e) => Err(SyncError::Io { path: dir.to_owned(), source: e.clone() }),
        CacheRead::Empty => Ok(true),
        CacheRead::Filled(_) => Ok(false),
    }
}

/// What a dir must be to serve as the cache of `url`: missing, empty, or a mirror of `url`. Says
/// whether it holds the mirror.
pub open spec fn cache_check(dir: Seq<char>, url: Seq<char>, read: CacheRead) -> Result<
    bool,
    SyncErrorView,
> {
    match read {
        CacheRead::Filled(RepoRead::NoRepo(e)) => Err(
            SyncErrorView::NotARepo { path: dir, source: e@ },
        ),
        CacheRead::Filled(RepoRead::Repo { origin, real_origin, real_url }) => match origin_check(
            opt_view(origin),
            opt_view(real_origin),
            url,
            opt_view(real_url),
        ) {
            Ok(_) => Ok(true),
            Err(e) => Err(e),
        },
        _ => match emptiness(dir, read) {
            Ok(_) => Ok(false),
            Err(e) => Err(e),
        },
    }
}

/// Whether the dir that is called `dir` in errors holds a mirror of `url`; it must be missing or
/// empty if it does not.
pub fn check_cache(dir: &str, url: &str, read: CacheRead) -> (r: Result<bool, SyncError>)
    ensures
        match r {
            Ok(held) => cache_check(dir@, url@, read) == Ok::<_, SyncErrorView>(held),
            Err(e) => cache_check(dir@, url@, read) == Err::<bool, _>(e@),
        },
{
    match is_empty_dir(dir, &read) {
        Err(e) => return Err(e),
        Ok(true) => return Ok(false),
        Ok(false) => {},
    }
    match read {
        CacheRead::Filled(RepoRead::NoRepo(source)) => {
            Err(SyncError::NotARepo { path: dir.to_owned(), source })
        },
        CacheRead::Filled(RepoRead::Repo { origin, real_origin, real_url }) => {
            match check_origin(origin, real_origin, url, real_url) {
                Ok(_) => Ok(true),
                Err(e) => Err(e),
            }
        },
        _ => Ok(false),
    }
}

/// The view of a [`Mirror`].
#[verifier::ext_equal]
pub struct MirrorView {
    pub upstream: UpstreamView,
    pub dir: Seq<u8>,
    pub ttl: nat,
    pub git_timeout: nat,
    /// Whether the cache holds a repository: since startup, or since the worker cloned it.
    pub has_repo: bool,
    /// Whether the upstream's HEAD was compared since startup.
    pub head_checked: bool,
    /// Highest ticket handed out. Syncs are numbered; a caller takes a ticket and waits until
    /// `status.completed` reaches it.
    pub requested: u64,
    /// Ticket the worker took most recently; the sync for it is running unless it has completed.
    pub started: u64,
    pub status: StatusView,
    /// Whether the mirror is shutting down.
    pub stopping: bool,
}

/// What a request for a fresh mirror is answered.
pub enum FreshnessView {
    /// The cache is fresh; this is the status of it.
    Cached(StatusView),
    /// The sync with this ticket has to be waited for. If `wake`, the worker has to be woken.
    Wait { ticket: u64, wake: bool },
}

impl MirrorView {
    /// At most one sync is running and at most one more is queued, and the status tells of the last
    /// attempt.
    pub open spec fn wf(self) -> bool {
        &&& self.status.consistent()
        &&& self.status.completed <= self.started <= self.status.completed + 1
        &&& self.started <= self.requested <= self.started + 1
    }

    /// Whether a sync is queued.
    pub open spec fn queued(self) -> bool {
        self.requested > self.started
    }

    /// Whether a sync is running.
    pub open spec fn running(self) -> bool {
        self.started > self.status.completed
    }

    /// What a request for a fresh mirror at `now` is answered.
    pub open spec fn freshness(self, force: bool, now: Timestamp) -> FreshnessView {
        if !force && self.status.fresh(now, self.ttl) {
            FreshnessView::Cached(self.status)
        } else if self.queued() || (self.running() && !force) {
            FreshnessView::Wait { ticket: self.requested, wake: false }
        } else {
            FreshnessView::Wait { ticket: (self.requested + 1) as u64, wake: true }
        }
    }

    /// The mirror after a request for a fresh one: a sync is queued if none will do.
    pub open spec fn after_request(self, force: bool, now: Timestamp) -> MirrorView {
        match self.freshness(force, now) {
            FreshnessView::Wait { ticket, .. } => MirrorView { requested: ticket, ..self },
            FreshnessView::Cached(_) => self,
        }
    }

    /// The mirror after the worker took the queued sync.
    pub open spec fn after_take(self) -> MirrorView {
        MirrorView { started: self.requested, ..self }
    }

    /// The mirror after the running sync ended at `now`. What a sync that ended well came to is
    /// added to what held before; one that failed leaves both as they were.
    pub open spec fn after_sync(
        self,
        now: Timestamp,
        result: Result<(), SyncErrorView>,
        has_repo: bool,
        head_checked: bool,
    ) -> MirrorView {
        MirrorView {
            status: self.status.after(
                self.started,
                now,
                match result {
                    Ok(_) => None,
                    Err(e) => Some(e.message()),
                },
            ),
            has_repo: self.has_repo || (result is Ok && has_repo),
            head_checked: self.head_checked || (result is Ok && head_checked),
            ..self
        }
    }

    /// What the worker does next. `synced` says that a sync just ended.
    pub open spec fn worker_step(self, synced: bool) -> WorkerStepView {
        if self.stopping && synced {
            WorkerStepView::Stop
        } else if self.queued() {
            WorkerStepView::Run(SyncView::start(self.has_repo, self.head_checked))
        } else if self.stopping {
            WorkerStepView::Stop
        } else {
            WorkerStepView::Wait
        }
    }

    /// Whether a caller that waits for the sync `ticket` has waited long enough.
    pub open spec fn answers(self, ticket: u64) -> bool {
        self.status.completed >= ticket || self.stopping
    }

    /// A mirror that was just opened. The first sync is queued.
    pub open spec fn opened(config: MirrorConfigView, url: UrlView, has_repo: bool) -> MirrorView {
        MirrorView {
            upstream: UpstreamView {
                url: config.url,
                credentials: match config.token {
                    Some(token) => Some(
                        CredentialsView {
                            helper_key: "credential."@ + url.origin() + ".helper"@,
                            user: config.token_user,
                            token,
                        },
                    ),
                    None => None,
                },
                blobless: config.blobless,
            },
            dir: config.cache_dir,
            ttl: config.ttl,
            git_timeout: config.git_timeout,
            has_repo,
            head_checked: false,
            requested: 1,
            started: 0,
            status: StatusView::initial(),
            stopping: false,
        }
    }
}

/// What the worker does next.
pub enum WorkerStepView {
    /// This sync is to be run.
    Run(SyncView),
    /// Nothing is queued: it waits to be woken, or for the mirror to shut down.
    Wait,
    /// It ends.
    Stop,
}

/// What the worker does next.
pub enum WorkerStep {
    /// This sync is to be run.
    Run(SyncRun),
    /// Nothing is queued: it waits to be woken, or for the mirror to shut down.
    Wait,
    /// It ends.
    Stop,
}

impl View for WorkerStep {
    type V = WorkerStepView;

    open spec fn view(&self) -> WorkerStepView {
        match self {
            WorkerStep::Run(run) => WorkerStepView::Run(run@),
            WorkerStep::Wait => WorkerStepView::Wait,
            WorkerStep::Stop => WorkerStepView::Stop,
        }
    }
}

/// What opening the mirror of a URL that was parsed comes to.
pub open spec fn open_result(config: MirrorConfigView, url: UrlView, read: CacheRead) -> Result<
    MirrorView,
    SyncErrorView,
> {
    if url.password is Some {
        Err(SyncErrorView::PasswordInUrl)
    } else {
        match cache_check(text_of(config.cache_dir), config.url, read) {
            Ok(has_repo) => Ok(MirrorView::opened(config, url, has_repo)),
            Err(e) => Err(e),
        }
    }
}

/// What a request for a fresh mirror is answered.
#[derive(Debug)]
pub enum Freshness {
    /// The cache is fresh; this is the status of it.
    Cached(Status),
    /// The sync with this ticket has to be waited for. If `wake`, the worker has to be woken.
    Wait { ticket: u64, wake: bool },
}

impl View for Freshness {
    type V = FreshnessView;

    open spec fn view(&self) -> FreshnessView {
        match self {
            Freshness::Cached(status) => FreshnessView::Cached(status@),
            Freshness::Wait { ticket, wake } => FreshnessView::Wait {
                ticket: *ticket,
                wake: *wake,
            },
        }
    }
}

/// The mirror of a repository.
pub struct Mirror {
    upstream: Upstream,
    dir: Vec<u8>,
    ttl: u128,
    git_timeout: u128,
    has_repo: bool,
    head_checked: bool,
    requested: u64,
    started: u64,
    status: Status,
    stopping: bool,
}

impl View for Mirror {
    type V = MirrorView;

    closed spec fn view(&self) -> MirrorView {
        MirrorView {
            upstream: self.upstream@,
            dir: self.dir@,
            ttl: self.ttl as nat,
            git_timeout: self.git_timeout as nat,
            has_repo: self.has_repo,
            head_checked: self.head_checked,
            requested: self.requested,
            started: self.started,
            status: self.status@,
            stopping: self.stopping,
        }
    }
}

impl Mirror {
    #[verifier::type_invariant]
    closed spec fn inv(&self) -> bool {
        self@.wf()
    }

    /// Opens the mirror of the parsed `url`. Its cache dir was read and not touched.
    pub fn open_url(config: MirrorConfig, url: &Url, read: CacheRead) -> (r: Result<
        Mirror,
        SyncError,
    >)
        ensures
            res_view(r) == open_result(config@, url@, read),
            r is Ok ==> r->Ok_0@.wf(),
    {
        if url.password.is_some() {
            return Err(SyncError::PasswordInUrl);
        }
        let credentials = match config.token {
            Some(token) => Some(
                Credentials {
                    helper_key: "credential.".to_owned().concat(origin_of(url).as_str()).concat(
                        ".helper",
                    ),
                    user: config.token_user,
                    token,
                },
            ),
            None => None,
        };
        let dir_text = to_text(config.cache_dir.as_slice());
        match check_cache(dir_text.as_str(), config.url.as_str(), read) {
            Err(e) => Err(e),
            Ok(has_repo) => Ok(
                Mirror {
                    upstream: Upstream {
                        url: config.url,
                        credentials,
                        blobless: config.blobless,
                    },
                    dir: config.cache_dir,
                    ttl: config.ttl,
                    git_timeout: config.git_timeout,
                    has_repo,
                    head_checked: false,
                    requested: 1,
                    started: 0,
                    status: Status::default(),
                    stopping: false,
                },
            ),
        }
    }

    /// Checks the cache dir without touching the network: it must be missing, empty, or a
    /// mirror of `config.url`. The first sync is queued.
    pub fn open(config: MirrorConfig, read: CacheRead) -> (r: Result<Mirror, SyncError>)
        ensures
            res_view(r) == match url_of(text_bytes(config.url@)) {
                Err(e) => Err(SyncErrorView::Git(e)),
                Ok(url) => open_result(config@, url, read),
            },
            r is Ok ==> r->Ok_0@.wf(),
    {
        match check_url(config.url.as_str()) {
            Err(e) => Err(e),
            Ok(url) => Self::open_url(config, &url, read),
        }
    }

    /// Whether the cache holds a repository.
    pub fn repo(&self) -> (r: bool)
        ensures
            r == self@.has_repo,
    {
        self.has_repo
    }

    /// Outcome of the most recent sync attempt.
    pub fn status(&self) -> (r: Status)
        ensures
            r@ == self@.status,
    {
        self.status.clone()
    }

    /// The repository that is mirrored.
    pub fn upstream(&self) -> (r: &Upstream)
        ensures
            r@ == self@.upstream,
    {
        &self.upstream
    }

    /// The path of the cache dir.
    pub fn dir(&self) -> (r: &Vec<u8>)
        ensures
            r@ == self@.dir,
    {
        &self.dir
    }

    /// How many nanoseconds a git command may run.
    pub fn git_timeout(&self) -> (r: u128)
        ensures
            r == self@.git_timeout,
    {
        self.git_timeout
    }

    /// Highest ticket handed out.
    pub fn requested(&self) -> (r: u64)
        ensures
            r == self@.requested,
    {
        self.requested
    }

    /// Whether a sync is running.
    pub fn is_running(&self) -> (r: bool)
        ensures
            r == self@.running(),
    {
        self.started > self.status.completed
    }

    /// Asks for a sync unless the last attempt is within the TTL. With `force`, always asks for
    /// a sync that starts after this call, so a push the caller was notified about is picked up.
    pub fn ensure_fresh(&mut self, force: bool, now: Timestamp) -> (r: Freshness)
        requires
            old(self)@.requested < u64::MAX,
        ensures
            final(self)@.wf(),
            r@ == old(self)@.freshness(force, now),
            final(self)@ == old(self)@.after_request(force, now),
    {
        proof {
            use_type_invariant(&*self);
        }
        let queued = self.requested > self.started;
        let running = self.started > self.status.completed;
        if !force && self.status.is_fresh(now, self.ttl) {
            return Freshness::Cached(self.status.clone());
        }
        if queued || (running && !force) {
            Freshness::Wait { ticket: self.requested, wake: false }
        } else {
            self.requested = self.requested + 1;
            Freshness::Wait { ticket: self.requested, wake: true }
        }
    }

    /// Whether a caller that waits for the sync `ticket` has waited long enough: until the sync
    /// completed or the mirror shuts down.
    pub fn is_answered(&self, ticket: u64) -> (r: bool)
        ensures
            r == self@.answers(ticket),
    {
        self.status.completed >= ticket || self.stopping
    }

    /// Stops the worker.
    pub fn shutdown(&mut self)
        ensures
            final(self)@ == (MirrorView { stopping: true, ..old(self)@ }),
    {
        proof {
            use_type_invariant(&*self);
        }
        self.stopping = true;
    }

    /// Whether the mirror is shutting down.
    pub fn is_stopping(&self) -> (r: bool)
        ensures
            r == self@.stopping,
    {
        self.stopping
    }

    /// What the worker does next: it runs the queued sync if there is one, and ends once the mirror
    /// is shutting down. `synced` says that a sync just ended; no other one is begun then during a
    /// shutdown.
    pub fn next_step(&mut self, synced: bool) -> (r: WorkerStep)
        requires
            !old(self)@.running(),
        ensures
            final(self)@.wf(),
            r@ == old(self)@.worker_step(synced),
            final(self)@ == (if r is Run {
                old(self)@.after_take()
            } else {
                old(self)@
            }),
    {
        proof {
            use_type_invariant(&*self);
        }
        if self.stopping && synced {
            WorkerStep::Stop
        } else if self.requested > self.started {
            self.started = self.requested;
            WorkerStep::Run(SyncRun::start(self.has_repo, self.head_checked))
        } else if self.stopping {
            WorkerStep::Stop
        } else {
            WorkerStep::Wait
        }
    }

    /// Takes note of what the running sync came to at `now`.
    pub fn finish_sync(
        &mut self,
        now: Timestamp,
        result: Result<(), SyncError>,
        has_repo: bool,
        head_checked: bool,
    )
        requires
            old(self)@.running(),
        ensures
            final(self)@.wf(),
            final(self)@ == old(self)@.after_sync(
                now,
                check_view(result),
                has_repo,
                head_checked,
            ),
    {
        proof {
            use_type_invariant(&*self);
        }
        let (last_success, error): (Option<Timestamp>, Option<String>) = match result {
            Ok(_) => {
                self.has_repo = self.has_repo || has_repo;
                self.head_checked = self.head_checked || head_checked;
                (Some(now), None)
            },
            Err(e) => (self.status.last_success, Some(e.message())),
        };
        self.status = Status {
            completed: self.started,
            last_attempt: Some(now),
            last_success,
            error,
        };
    }

    /// The command that fetches objects a partial clone does not hold yet, such as file contents
    /// in blobless mode. Another request may have fetched them all, and then there is none.
    pub fn fetch_objects(&self, objects: &Vec<Held>) -> (r: Option<GitCommand>)
        ensures
            opt_view(r) == fetch_missing_command(self@.upstream.credentials, objects@),
    {
        fetch_missing(&self.upstream.credentials, objects)
    }
}

/// With `force`, the sync that is waited for starts after the call.
pub proof fn law_forced_sync_starts_after_the_call(mirror: MirrorView, now: Timestamp)
    requires
        mirror.wf(),
        mirror.requested < u64::MAX,
    ensures
        mirror.freshness(true, now) matches FreshnessView::Wait { ticket, .. } && ticket
            > mirror.started && ticket == mirror.after_request(true, now).after_take().started,
{
}

/// Within the TTL of the last attempt, requests are answered from the cache and ask for nothing,
/// whether the attempt failed or not.
pub proof fn law_fresh_cache_is_served_at_once(mirror: MirrorView, now: Timestamp)
    requires
        mirror.status.fresh(now, mirror.ttl),
    ensures
        mirror.freshness(false, now) == FreshnessView::Cached(mirror.status),
        mirror.after_request(false, now) == mirror,
{
}

/// Something that happens to a mirror.
pub enum MirrorEvent {
    /// A fresh mirror is requested.
    Request { force: bool, now: Timestamp },
    /// The worker looks for what to do next.
    Step { synced: bool },
    /// The running sync ends.
    End {
        now: Timestamp,
        result: Result<(), SyncErrorView>,
        has_repo: bool,
        head_checked: bool,
    },
    Shutdown,
}

impl MirrorView {
    /// Whether an event can happen: tickets are left for a request, and the one worker runs one
    /// sync at a time.
    pub open spec fn admits(self, event: MirrorEvent) -> bool {
        match event {
            MirrorEvent::Request { .. } => self.requested < u64::MAX,
            MirrorEvent::Step { .. } => !self.running(),
            MirrorEvent::End { .. } => self.running(),
            MirrorEvent::Shutdown => true,
        }
    }

    /// The mirror after an event.
    pub open spec fn after(self, event: MirrorEvent) -> MirrorView {
        match event {
            MirrorEvent::Request { force, now } => self.after_request(force, now),
            MirrorEvent::Step { synced } => if self.worker_step(synced) is Run {
                self.after_take()
            } else {
                self
            },
            MirrorEvent::End { now, result, has_repo, head_checked } => self.after_sync(
                now,
                result,
                has_repo,
                head_checked,
            ),
            MirrorEvent::Shutdown => MirrorView { stopping: true, ..self },
        }
    }

    /// Whether several events can happen, one after another.
    pub open spec fn admits_all(self, events: Seq<MirrorEvent>) -> bool
        decreases events.len(),
    {
        events.len() > 0 ==> self.admits(events[0]) && self.after(events[0]).admits_all(
            events.skip(1),
        )
    }

    /// The mirror after several events.
    pub open spec fn after_all(self, events: Seq<MirrorEvent>) -> MirrorView
        decreases events.len(),
    {
        if events.len() == 0 {
            self
        } else {
            self.after(events[0]).after_all(events.skip(1))
        }
    }
}

/// Over everything that can happen to a mirror, tickets are never taken back: none of the three
/// counters falls. The repository stays, a shutdown is final, and a status without an error tells
/// of a success.
pub proof fn law_mirror_only_moves_on(mirror: MirrorView, events: Seq<MirrorEvent>)
    requires
        mirror.wf(),
        mirror.admits_all(events),
    ensures
        ({
            let after = mirror.after_all(events);
            &&& after.wf()
            &&& mirror.requested <= after.requested
            &&& mirror.started <= after.started
            &&& mirror.status.completed <= after.status.completed
            &&& mirror.has_repo ==> after.has_repo
            &&& mirror.head_checked ==> after.head_checked
            &&& mirror.stopping ==> after.stopping
            &&& after.status.error is None ==> after.status.last_success
                == after.status.last_attempt
        }),
    decreases events.len(),
{
    if events.len() > 0 {
        law_mirror_only_moves_on(mirror.after(events[0]), events.skip(1));
    }
}

/// The mirror after several requests for a fresh one, each forced or not and made at some time.
pub open spec fn after_requests(mirror: MirrorView, requests: Seq<(bool, Timestamp)>) -> MirrorView
    decreases requests.len(),
{
    if requests.len() == 0 {
        mirror
    } else {
        after_requests(mirror, requests.drop_last()).after_request(
            requests.last().0,
            requests.last().1,
        )
    }
}

/// Whether one of several requests is forced.
pub open spec fn any_forced(requests: Seq<(bool, Timestamp)>) -> bool {
    exists|i: int| 0 <= i < requests.len() && (#[trigger] requests[i]).0
}

/// However many requests come while a sync is running and none is queued, none of them being
/// answered from within the TTL, they share what is asked for: as long as none is forced they wait
/// for the running sync and ask for nothing, and all forced ones together ask for exactly one more
/// sync, for which every later request waits too.
pub proof fn law_any_number_of_requests_share_one_more_sync(
    mirror: MirrorView,
    requests: Seq<(bool, Timestamp)>,
    force: bool,
    now: Timestamp,
)
    requires
        mirror.wf(),
        mirror.running(),
        !mirror.queued(),
        mirror.requested < u64::MAX,
        forall|i: int|
            0 <= i < requests.len() ==> (#[trigger] requests[i]).0 || !mirror.status.fresh(
                requests[i].1,
                mirror.ttl,
            ),
        force || !mirror.status.fresh(now, mirror.ttl),
    ensures
        ({
            let next = mirror.started + 1;
            let after = after_requests(mirror, requests);
            &&& after == (MirrorView {
                requested: if any_forced(requests) {
                    next as u64
                } else {
                    mirror.started
                },
                ..mirror
            })
            &&& after.freshness(force, now) == (FreshnessView::Wait {
                ticket: if force || any_forced(requests) {
                    next as u64
                } else {
                    mirror.started
                },
                wake: force && !any_forced(requests),
            })
        }),
    decreases requests.len(),
{
    if requests.len() > 0 {
        let before = requests.drop_last();
        let last = requests.last();
        assert(requests[requests.len() - 1] == last);
        assert forall|i: int| 0 <= i < before.len() implies (#[trigger] before[i]).0
            || !mirror.status.fresh(before[i].1, mirror.ttl) by {
            assert(before[i] == requests[i]);
        }
        law_any_number_of_requests_share_one_more_sync(mirror, before, last.0, last.1);
        assert(any_forced(requests) == (any_forced(before) || last.0)) by {
            if any_forced(before) {
                let i = choose|i: int| 0 <= i < before.len() && (#[trigger] before[i]).0;
                assert(requests[i].0);
            }
            if any_forced(requests) && !last.0 {
                let i = choose|i: int| 0 <= i < requests.len() && (#[trigger] requests[i]).0;
                assert(before[i].0);
            }
        }
    }
}

/// Requests that come while a sync is queued share it, forced or not.
pub proof fn law_concurrent_requests_share_one_sync(
    mirror: MirrorView,
    force: bool,
    now: Timestamp,
    again: bool,
    later: Timestamp,
)
    requires
        mirror.wf(),
        mirror.requested < u64::MAX,
        mirror.after_request(force, now).queued(),
        mirror.freshness(force, now) is Wait,
        mirror.after_request(force, now).freshness(again, later) is Wait,
    ensures
        ({
            let next = mirror.after_request(force, now);
            &&& next.freshness(again, later)->ticket == mirror.freshness(force, now)->ticket
            &&& !next.freshness(again, later)->wake
            &&& next.after_request(again, later) == next
        }),
{
}

/// A request that is not forced makes do with a sync that is running already.
pub proof fn law_running_sync_is_enough_without_force(mirror: MirrorView, now: Timestamp)
    requires
        mirror.wf(),
        mirror.running(),
        !mirror.queued(),
        !mirror.status.fresh(now, mirror.ttl),
    ensures
        mirror.freshness(false, now) == (FreshnessView::Wait {
            ticket: mirror.started,
            wake: false,
        }),
        mirror.after_request(false, now) == mirror,
{
}

/// Every ticket that was handed out is answered: by the running sync, or by the next one.
pub proof fn law_every_ticket_is_answered(
    mirror: MirrorView,
    ticket: u64,
    now: Timestamp,
    result: Result<(), SyncErrorView>,
    has_repo: bool,
    head_checked: bool,
)
    requires
        mirror.wf(),
        ticket <= mirror.requested,
    ensures
        mirror.running() && ticket <= mirror.started ==> mirror.after_sync(
            now,
            result,
            has_repo,
            head_checked,
        ).answers(ticket),
        !mirror.running() ==> mirror.after_take().after_sync(
            now,
            result,
            has_repo,
            head_checked,
        ).answers(ticket),
        ticket > mirror.started ==> mirror.queued(),
{
}

/// A caller whose ticket is not answered yet is never left waiting: a sync that answers it is
/// running or queued.
pub proof fn law_a_waiting_caller_has_a_sync(mirror: MirrorView, force: bool, now: Timestamp)
    requires
        mirror.wf(),
        mirror.requested < u64::MAX,
        mirror.freshness(force, now) is Wait,
    ensures
        ({
            let next = mirror.after_request(force, now);
            let ticket = mirror.freshness(force, now)->ticket;
            &&& next.wf()
            &&& ticket == next.requested
            &&& next.running() || next.queued()
            &&& ticket > next.status.completed
        }),
{
}

/// A failed sync leaves the mirror serving what it has: the time of the last success and the
/// repository stay, and the error is told.
pub proof fn law_failed_sync_keeps_the_cache(
    mirror: MirrorView,
    now: Timestamp,
    e: SyncErrorView,
    has_repo: bool,
    head_checked: bool,
)
    requires
        mirror.wf(),
        mirror.running(),
    ensures
        ({
            let after = mirror.after_sync(now, Err(e), has_repo, head_checked);
            &&& after.wf()
            &&& after.has_repo == mirror.has_repo
            &&& after.head_checked == mirror.head_checked
            &&& after.status.last_success == mirror.status.last_success
            &&& after.status.last_attempt == Some(now)
            &&& after.status.error == Some(e.message())
        }),
{
}

/// The cache never loses its repository, and HEAD that was compared stays compared, whatever a
/// sync comes to.
pub proof fn law_mirror_keeps_its_repository(
    mirror: MirrorView,
    now: Timestamp,
    result: Result<(), SyncErrorView>,
    has_repo: bool,
    head_checked: bool,
)
    ensures
        mirror.has_repo ==> mirror.after_sync(now, result, has_repo, head_checked).has_repo,
        mirror.head_checked ==> mirror.after_sync(
            now,
            result,
            has_repo,
            head_checked,
        ).head_checked,
{
}

/// A mirror takes over what the sync that it began came to: its result, its repository and
/// whether HEAD was compared.
pub proof fn law_mirror_takes_over_the_end_of_its_sync(
    mirror: MirrorView,
    answers: SyncAnswers,
    now: Timestamp,
)
    requires
        mirror.wf(),
        mirror.running(),
    ensures
        ({
            let end = drive(SyncView::start(mirror.has_repo, mirror.head_checked), answers);
            let result = end.state->Done_0;
            let after = mirror.after_sync(now, result, end.has_repo, end.head_checked);
            &&& end.state == SyncState::Done(result)
            &&& after.wf()
            &&& after.has_repo == end.has_repo
            &&& after.head_checked == end.head_checked
            &&& after.status.error is None <==> result is Ok
        }),
{
    law_sync_clones_or_fetches(mirror.has_repo, mirror.head_checked, answers);
}

/// The worker never waits while a sync is queued, and ends as soon as the mirror shuts down with
/// nothing queued or after a sync.
pub proof fn law_worker_runs_what_is_queued(mirror: MirrorView, synced: bool)
    ensures
        mirror.worker_step(synced) is Wait ==> !mirror.queued() && !mirror.stopping,
        mirror.worker_step(synced) is Run ==> mirror.queued(),
        mirror.queued() && !mirror.stopping ==> mirror.worker_step(synced) is Run,
        mirror.stopping && (synced || !mirror.queued()) ==> mirror.worker_step(synced) is Stop,
{
}

/// While the upstream cannot be reached, the cache that was there is served: a sync whose fetch
/// fails ends with that error, and the repository and the time of the last success stay.
pub proof fn law_stale_cache_is_served_while_the_upstream_is_unreachable(
    mirror: MirrorView,
    answers: SyncAnswers,
    now: Timestamp,
    e: SyncErrorView,
)
    requires
        mirror.wf(),
        mirror.running(),
        mirror.has_repo,
        answers.before is Ok,
        answers.fetch == Err::<Seq<char>, _>(e),
    ensures
        ({
            let end = drive(SyncView::start(true, mirror.head_checked), answers);
            let after = mirror.after_sync(now, Err(e), end.has_repo, end.head_checked);
            &&& end.state == SyncState::Done(Err(e))
            &&& after.has_repo
            &&& after.status.last_success == mirror.status.last_success
            &&& after.status.error == Some(e.message())
        }),
{
    law_sync_clones_or_fetches(true, mirror.head_checked, answers);
}

/// Before the first sync ended, every request waits for it.
pub proof fn law_requests_wait_for_the_first_sync(
    config: MirrorConfigView,
    url: UrlView,
    has_repo: bool,
    force: bool,
    now: Timestamp,
)
    ensures
        ({
            let mirror = MirrorView::opened(config, url, has_repo);
            &&& mirror.wf()
            &&& mirror.queued()
            &&& mirror.freshness(force, now) == (FreshnessView::Wait { ticket: 1, wake: false })
        }),
{
}

/// A cache dir with something else in it than a repository is never used: opening fails whatever
/// else holds.
pub proof fn law_dir_of_something_else_is_refused(
    config: MirrorConfigView,
    url: UrlView,
    cause: String,
)
    ensures
        open_result(config, url, CacheRead::Filled(RepoRead::NoRepo(cause))) is Err,
        url.password is None ==> open_result(
            config,
            url,
            CacheRead::Filled(RepoRead::NoRepo(cause)),
        ) == Err::<MirrorView, _>(
            SyncErrorView::NotARepo { path: text_of(config.cache_dir), source: cause@ },
        ),
{
}

/// The credentials depend on the parsed URL through its scheme, host and port alone, and without a
/// token there are none.
pub proof fn law_credentials_are_scoped_to_the_host(
    config: MirrorConfigView,
    a: UrlView,
    b: UrlView,
    has_repo: bool,
)
    requires
        a.scheme == b.scheme,
        a.host == b.host,
        a.port == b.port,
    ensures
        MirrorView::opened(config, a, has_repo) == MirrorView::opened(config, b, has_repo),
        config.token is None ==> MirrorView::opened(config, a, has_repo).upstream.credentials
            is None,
{
}

/// The highest ticket rises exactly if the worker has to be woken, whatever the status says, and
/// then by one. A caller that waits, waits for the highest ticket. Nothing else of the mirror
/// changes with a request.
pub proof fn law_worker_is_woken_for_new_tickets(mirror: MirrorView, force: bool, now: Timestamp)
    requires
        mirror.wf(),
        mirror.requested < u64::MAX,
    ensures
        ({
            let answer = mirror.freshness(force, now);
            let after = mirror.after_request(force, now);
            &&& after.requested > mirror.requested <==> (answer matches FreshnessView::Wait {
                wake,
                ..
            } && wake)
            &&& after.requested == mirror.requested || after.requested == mirror.requested + 1
            &&& answer matches FreshnessView::Wait { ticket, .. } ==> ticket == after.requested
            &&& after == (MirrorView { requested: after.requested, ..mirror })
        }),
{
}

/// What a request is answered, by what is going on: from the cache exactly if it is not forced and
/// the last attempt is no older than the time to live allows; else it waits, and asks for another
/// sync exactly if none is queued and either it is forced or none is running. Neither an error nor
/// a success of the last sync makes a difference.
pub proof fn law_requests_are_answered_by_what_goes_on(
    mirror: MirrorView,
    force: bool,
    now: Timestamp,
)
    requires
        mirror.wf(),
        mirror.requested < u64::MAX,
    ensures
        ({
            let recent = mirror.status.last_attempt matches Some(t) && 0 <= now.nanos - t.nanos
                < mirror.ttl;
            let more = mirror.requested == mirror.started && (force || mirror.started
                == mirror.status.completed);
            let answer = mirror.freshness(force, now);
            let after = mirror.after_request(force, now);
            &&& !force && recent ==> answer == FreshnessView::Cached(mirror.status) && after
                == mirror
            &&& (force || !recent) && more ==> answer == (FreshnessView::Wait {
                ticket: (mirror.requested + 1) as u64,
                wake: true,
            }) && after.requested == mirror.requested + 1
            &&& (force || !recent) && !more ==> answer == (FreshnessView::Wait {
                ticket: mirror.requested,
                wake: false,
            }) && after == mirror
        }),
{
}

/// Requests do not look at what the last sync came to, only at when it was: mirrors that differ in
/// the error and the last success alone hand out the same tickets and wake the worker alike.
pub proof fn law_outcome_of_the_last_sync_does_not_count(
    a: MirrorView,
    b: MirrorView,
    force: bool,
    now: Timestamp,
)
    requires
        b == (MirrorView {
            status: StatusView {
                error: b.status.error,
                last_success: b.status.last_success,
                ..a.status
            },
            ..a
        }),
    ensures
        a.freshness(force, now) is Wait <==> b.freshness(force, now) is Wait,
        a.freshness(force, now) is Wait ==> a.freshness(force, now) == b.freshness(force, now),
        a.after_request(force, now).requested == b.after_request(force, now).requested,
{
}

/// A sync is queued while the worker has not taken the highest ticket, and running while the one
/// that it took has not completed.
pub proof fn law_tickets_tell_what_goes_on(mirror: MirrorView)
    ensures
        mirror.queued() <==> mirror.requested > mirror.started,
        mirror.running() <==> mirror.started > mirror.status.completed,
        mirror.wf() ==> mirror.started - mirror.status.completed <= 1 && mirror.requested
            - mirror.started <= 1 && mirror.status.completed <= mirror.started
            <= mirror.requested,
        mirror.wf() ==> mirror.status.error is Some || mirror.status.last_success
            == mirror.status.last_attempt,
{
}

/// Taking a sync starts the highest ticket and changes nothing else.
pub proof fn law_worker_takes_the_highest_ticket(mirror: MirrorView)
    ensures
        mirror.after_take().started == mirror.requested,
        mirror.after_take() == (MirrorView {
            started: mirror.after_take().started,
            ..mirror
        }),
{
}

/// A sync that ends completes the ticket that was started. The status tells of it, a sync that
/// ended well adds what it came to, and nothing else of the mirror changes.
pub proof fn law_sync_completes_its_ticket(
    mirror: MirrorView,
    now: Timestamp,
    result: Result<(), SyncErrorView>,
    has_repo: bool,
    head_checked: bool,
)
    ensures
        ({
            let after = mirror.after_sync(now, result, has_repo, head_checked);
            &&& after.status.completed == mirror.started
            &&& after.status.last_attempt == Some(now)
            &&& result is Ok ==> after.status.last_success == Some(now)
            &&& result is Ok ==> after.status.error is None
            &&& result is Ok ==> (after.has_repo <==> mirror.has_repo || has_repo)
            &&& result is Ok ==> (after.head_checked <==> mirror.head_checked || head_checked)
            &&& result matches Err(e) ==> after.status.error == Some(e.message())
            &&& result is Err ==> after.status.last_success == mirror.status.last_success
            &&& result is Err ==> after.has_repo == mirror.has_repo
            &&& result is Err ==> after.head_checked == mirror.head_checked
            &&& after == (MirrorView {
                status: after.status,
                has_repo: after.has_repo,
                head_checked: after.head_checked,
                ..mirror
            })
        }),
{
}

/// The worker begins a sync with what the mirror has: it clones if there is no repository and
/// fetches if there is one.
pub proof fn law_worker_syncs_what_the_mirror_has(mirror: MirrorView, synced: bool)
    ensures
        mirror.requested > mirror.started && !(mirror.stopping && synced) ==> (
        mirror.worker_step(synced) matches WorkerStepView::Run(sync) && {
            &&& sync.has_repo == mirror.has_repo
            &&& sync.head_checked == mirror.head_checked
            &&& sync.state is Before <==> mirror.has_repo
            &&& sync.state is Clear <==> !mirror.has_repo
        }),
        mirror.requested <= mirror.started && !mirror.stopping ==> mirror.worker_step(
            synced,
        ) is Wait,
        mirror.stopping && (synced || mirror.requested <= mirror.started) ==> mirror.worker_step(
            synced,
        ) is Stop,
{
}

/// A caller waits until its ticket or a later one completed, or the mirror shuts down.
pub proof fn law_callers_wait_for_their_ticket(mirror: MirrorView, ticket: u64)
    ensures
        mirror.answers(ticket) <==> mirror.status.completed >= ticket || mirror.stopping,
{
}

/// Events are requests, steps of the worker, ends of syncs and a shutdown. A request is possible
/// while there are tickets left, a step only while no sync is running and an end only while one is;
/// a shutdown always, and it changes nothing but that.
pub proof fn law_events_change_their_own_part(
    mirror: MirrorView,
    force: bool,
    synced: bool,
    now: Timestamp,
    result: Result<(), SyncErrorView>,
    has_repo: bool,
    head_checked: bool,
)
    ensures
        mirror.admits(MirrorEvent::Request { force, now }) <==> mirror.requested < u64::MAX,
        mirror.admits(MirrorEvent::Step { synced }) <==> mirror.started
            <= mirror.status.completed,
        mirror.admits(MirrorEvent::End { now, result, has_repo, head_checked }) <==> mirror.started
            > mirror.status.completed,
        mirror.admits(MirrorEvent::Shutdown),
        mirror.after(MirrorEvent::Request { force, now }) == mirror.after_request(force, now),
        mirror.after(MirrorEvent::Step { synced }) == (if mirror.requested > mirror.started && !(
        mirror.stopping && synced) {
            MirrorView { started: mirror.requested, ..mirror }
        } else {
            mirror
        }),
        mirror.after(MirrorEvent::End { now, result, has_repo, head_checked })
            == mirror.after_sync(now, result, has_repo, head_checked),
        mirror.after(MirrorEvent::Shutdown) == (MirrorView { stopping: true, ..mirror }),
{
}

/// A mirror is opened with what the configuration says, each part in its own place, with a first
/// sync queued and nothing synced yet. With a token, the helper key is made of the part of the URL
/// that says the host.
pub proof fn law_mirror_is_opened_as_configured(
    config: MirrorConfigView,
    url: UrlView,
    has_repo: bool,
)
    ensures
        ({
            let mirror = MirrorView::opened(config, url, has_repo);
            &&& mirror.upstream.url == config.url
            &&& mirror.upstream.blobless == config.blobless
            &&& config.token is None ==> mirror.upstream.credentials is None
            &&& config.token matches Some(token) ==> (mirror.upstream.credentials matches Some(c)
                && c.token == token && c.user == config.token_user && c.helper_key
                == "credential."@ + url.origin() + ".helper"@)
            &&& mirror.dir == config.cache_dir
            &&& mirror.ttl == config.ttl
            &&& mirror.git_timeout == config.git_timeout
            &&& mirror.has_repo == has_repo
            &&& !mirror.head_checked
            &&& mirror.requested == 1
            &&& mirror.started == 0
            &&& mirror.status.completed == 0
            &&& mirror.status.last_attempt is None
            &&& mirror.status.last_success is None
            &&& mirror.status.error is None
            &&& !mirror.stopping
        }),
{
}

/// What opening a mirror comes to: a password in the URL is refused first; then the cache dir is
/// asked for, and it is opened with a repository exactly if the dir holds one.
pub proof fn law_mirror_is_opened_by_its_dir(
    config: MirrorConfigView,
    url: UrlView,
    read: CacheRead,
    cause: String,
)
    ensures
        url.password is Some ==> open_result(config, url, read) == Err::<MirrorView, _>(
            SyncErrorView::PasswordInUrl,
        ),
        url.password is None ==> {
            let dir = text_of(config.cache_dir);
            &&& open_result(config, url, CacheRead::Missing) == Ok::<_, SyncErrorView>(
                MirrorView::opened(config, url, false),
            )
            &&& open_result(config, url, CacheRead::Empty) == Ok::<_, SyncErrorView>(
                MirrorView::opened(config, url, false),
            )
            &&& open_result(config, url, CacheRead::Failed(cause)) == Err::<MirrorView, _>(
                SyncErrorView::Io { path: dir, source: cause@ },
            )
            &&& open_result(config, url, CacheRead::Filled(RepoRead::NoRepo(cause))) == Err::<
                MirrorView,
                _,
            >(SyncErrorView::NotARepo { path: dir, source: cause@ })
            &&& open_result(config, url, read) matches Ok(mirror) ==> (mirror.has_repo <==> read
                is Filled)
        },
{
}

/// A dir that holds a repository is a cache of the URL exactly if its origin is, by the real paths
/// of both; the failure is that of the origin.
pub proof fn law_cache_is_checked_by_its_origin(
    dir: Seq<char>,
    url: Seq<char>,
    origin: Option<Vec<u8>>,
    real_origin: Option<Vec<u8>>,
    real_url: Option<Vec<u8>>,
)
    ensures
        ({
            let read = CacheRead::Filled(RepoRead::Repo { origin, real_origin, real_url });
            let check = origin_check(
                match origin {
                    Some(bytes) => Some(bytes@),
                    None => None,
                },
                match real_origin {
                    Some(bytes) => Some(bytes@),
                    None => None,
                },
                url,
                match real_url {
                    Some(bytes) => Some(bytes@),
                    None => None,
                },
            );
            &&& check is Ok ==> cache_check(dir, url, read) == Ok::<_, SyncErrorView>(true)
            &&& check matches Err(e) ==> cache_check(dir, url, read) == Err::<bool, _>(e)
        }),
{
}

/// A dir is empty if it is missing or holds nothing; one that cannot be listed is an error with its
/// path and cause.
pub proof fn law_missing_dirs_are_empty(
    dir: Seq<char>,
    url: Seq<char>,
    cause: String,
    repo: RepoRead,
)
    ensures
        emptiness(dir, CacheRead::Missing) == Ok::<_, SyncErrorView>(true),
        emptiness(dir, CacheRead::Empty) == Ok::<_, SyncErrorView>(true),
        emptiness(dir, CacheRead::Filled(repo)) == Ok::<_, SyncErrorView>(false),
        emptiness(dir, CacheRead::Failed(cause)) == Err::<bool, _>(
            SyncErrorView::Io { path: dir, source: cause@ },
        ),
        cache_check(dir, url, CacheRead::Missing) == Ok::<_, SyncErrorView>(false),
        cache_check(dir, url, CacheRead::Empty) == Ok::<_, SyncErrorView>(false),
        cache_check(dir, url, CacheRead::Failed(cause)) == Err::<bool, _>(
            SyncErrorView::Io { path: dir, source: cause@ },
        ),
        cache_check(dir, url, CacheRead::Filled(RepoRead::NoRepo(cause))) == Err::<bool, _>(
            SyncErrorView::NotARepo { path: dir, source: cause@ },
        ),
{
}

/// The URL of a mirror is taken as it is parsed, unless it holds a password or is none.
pub proof fn law_passwords_in_urls_are_refused(url: Seq<char>)
    ensures
        ({
            let parsed = url_of(encode_utf8(url));
            &&& parsed matches Err(e) ==> url_check(url) == Err::<UrlView, _>(SyncErrorView::Git(e))
            &&& parsed is Ok && parsed->Ok_0.password is Some ==> url_check(url) == Err::<
                UrlView,
                _,
            >(SyncErrorView::PasswordInUrl)
            &&& parsed is Ok && parsed->Ok_0.password is None ==> url_check(url) == Ok::<
                _,
                SyncErrorView,
            >(parsed->Ok_0)
        }),
{
}

/// What each failure of a sync reads.
pub proof fn law_sync_errors_read_as_they_are(a: Seq<char>, b: Seq<char>)
    ensures
        SyncErrorView::PasswordInUrl.message()
            == "repository URL must not contain a password; pass the token in GIT_SERVE_TOKEN"@,
        (SyncErrorView::Io { path: a, source: b }).message() == "cannot read cache dir "@ + a
            + ": "@ + b,
        (SyncErrorView::NotARepo { path: a, source: b }).message() == "cache dir "@ + a
            + " is not empty and not a git repository: "@ + b,
        (SyncErrorView::UrlMismatch { expected: a, found: b }).message()
            == "cache dir remote \"origin\" is "@ + quoted_text(b) + ", expected "@
            + quoted_text(a),
        SyncErrorView::Git(a).message() == a,
        mismatch_text(a, b) == "cache dir remote \"origin\" is "@ + b + ", expected "@ + a,
{
}

/// A failure of a sync, an answer and a step are seen as what they are.
pub proof fn law_mirror_values_are_seen_as_they_are(
    a: String,
    b: String,
    status: Status,
    ticket: u64,
    wake: bool,
    run: SyncRun,
)
    ensures
        SyncError::PasswordInUrl@ == SyncErrorView::PasswordInUrl,
        (SyncError::Io { path: a, source: b })@ == (SyncErrorView::Io { path: a@, source: b@ }),
        (SyncError::NotARepo { path: a, source: b })@ == (SyncErrorView::NotARepo {
            path: a@,
            source: b@,
        }),
        (SyncError::UrlMismatch { expected: a, found: b })@ == (SyncErrorView::UrlMismatch {
            expected: a@,
            found: b@,
        }),
        SyncError::Git(a)@ == SyncErrorView::Git(a@),
        Freshness::Cached(status)@ == FreshnessView::Cached(status@),
        (Freshness::Wait { ticket, wake })@ == (FreshnessView::Wait { ticket, wake }),
        WorkerStep::Run(run)@ == WorkerStepView::Run(run@),
        WorkerStep::Wait@ == WorkerStepView::Wait,
        WorkerStep::Stop@ == WorkerStepView::Stop,
{
}

} // verus!
