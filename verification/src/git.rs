//! The git commands that keep the mirror in step with its upstream.
use vstd::prelude::*;
use vstd::string::*;

use crate::object_id::ObjectId;
use crate::text::{
    has_prefix, has_suffix, lemma_line_end_is, lemma_views_push, lines, opt_view, to_chars, views,
    without_cr, word_at,
};

verus! {

/// Answers credential requests from the environment, so the token is never in argv or on disk.
pub const CREDENTIAL_HELPER: &'static str =
    "!f() { test \"$1\" = get && printf 'username=%s\\npassword=%s\\n' \"$GIT_SERVE_TOKEN_USER\" \"$GIT_SERVE_TOKEN\"; }; f";

/// What git authenticates with at the upstream.
#[derive(Debug)]
pub struct Credentials {
    /// Config key that scopes the helper to the upstream host, so a redirect elsewhere gets
    /// nothing.
    pub helper_key: String,
    pub user: String,
    pub token: String,
}

/// The view of [`Credentials`].
#[verifier::ext_equal]
pub struct CredentialsView {
    pub helper_key: Seq<char>,
    pub user: Seq<char>,
    pub token: Seq<char>,
}

impl View for Credentials {
    type V = CredentialsView;

    open spec fn view(&self) -> CredentialsView {
        CredentialsView { helper_key: self.helper_key@, user: self.user@, token: self.token@ }
    }
}

/// An argument of a git command.
#[derive(Debug)]
pub enum Arg {
    Text(String),
    /// The path of the cache dir.
    CacheDir,
}

/// The view of an [`Arg`].
pub enum ArgView {
    Text(Seq<char>),
    CacheDir,
}

impl View for Arg {
    type V = ArgView;

    open spec fn view(&self) -> ArgView {
        match self {
            Arg::Text(text) => ArgView::Text(text@),
            Arg::CacheDir => ArgView::CacheDir,
        }
    }
}

/// An environment variable that a git command gets.
#[derive(Debug)]
pub struct EnvVar {
    pub name: String,
    pub value: String,
}

impl View for EnvVar {
    type V = (Seq<char>, Seq<char>);

    open spec fn view(&self) -> (Seq<char>, Seq<char>) {
        (self.name@, self.value@)
    }
}

/// A git command to run.
#[derive(Debug)]
pub struct GitCommand {
    /// What the command is called in error messages.
    pub what: String,
    pub args: Vec<Arg>,
    /// Variables that come on top of the environment of this process.
    pub env: Vec<EnvVar>,
    /// What is written to the standard input, which is empty otherwise.
    pub input: Option<String>,
}

/// The view of a [`GitCommand`].
#[verifier::ext_equal]
pub struct GitCommandView {
    pub what: Seq<char>,
    pub args: Seq<ArgView>,
    pub env: Seq<(Seq<char>, Seq<char>)>,
    pub input: Option<Seq<char>>,
}

impl View for GitCommand {
    type V = GitCommandView;

    open spec fn view(&self) -> GitCommandView {
        GitCommandView {
            what: self.what@,
            args: views(self.args@),
            env: views(self.env@),
            input: opt_view(self.input),
        }
    }
}

impl GitCommandView {
    /// A command without arguments.
    pub open spec fn new(what: Seq<char>) -> GitCommandView {
        GitCommandView { what, args: Seq::empty(), env: Seq::empty(), input: None }
    }

    /// The command with one argument more.
    pub open spec fn arg(self, text: Seq<char>) -> GitCommandView {
        GitCommandView { args: self.args.push(ArgView::Text(text)), ..self }
    }

    /// The command with the path of the cache dir as one argument more.
    pub open spec fn cache_dir(self) -> GitCommandView {
        GitCommandView { args: self.args.push(ArgView::CacheDir), ..self }
    }

    /// The command with one environment variable more.
    pub open spec fn env(self, name: Seq<char>, value: Seq<char>) -> GitCommandView {
        GitCommandView { env: self.env.push((name, value)), ..self }
    }

    /// The command with one configuration value more.
    pub open spec fn config(self, setting: Seq<char>) -> GitCommandView {
        self.arg("-c"@).arg(setting)
    }

    /// The settings that the host's gitconfig must not change:
    /// - protocol v2 filters the ref advertisement by refspec, so a fetch that finds nothing new
    ///   costs one round trip;
    /// - no automatic gc or maintenance, which would repack while requests read the packs;
    /// - commit-graph and reverse index files speed up history walks and object lookups.
    pub open spec fn pinned(self) -> GitCommandView {
        self.config("protocol.version=2"@).config("gc.auto=0"@).config(
            "maintenance.auto=false"@,
        ).config("fetch.writeCommitGraph=true"@).config("pack.writeReverseIndex=true"@)
    }

    /// The command with the upstream credentials. The empty value drops helpers from the host's
    /// gitconfig for this host.
    pub open spec fn authorized(self, credentials: Option<CredentialsView>) -> GitCommandView {
        match credentials {
            Some(c) => self.config(c.helper_key + "="@).config(
                c.helper_key + "="@ + CREDENTIAL_HELPER@,
            ).env("GIT_SERVE_TOKEN_USER"@, c.user).env("GIT_SERVE_TOKEN"@, c.token),
            None => self,
        }
    }

    /// A git command with the pinned config and, when configured, the upstream credentials.
    /// Missing credentials must fail instead of waiting for a prompt.
    pub open spec fn git(what: Seq<char>, credentials: Option<CredentialsView>) -> GitCommandView {
        GitCommandView::new(what).pinned().authorized(credentials).env(
            "GIT_TERMINAL_PROMPT"@,
            "0"@,
        )
    }

    /// [`GitCommandView::git`] on the repository in the cache dir.
    pub open spec fn git_dir(
        what: Seq<char>,
        credentials: Option<CredentialsView>,
    ) -> GitCommandView {
        GitCommandView::git(what, credentials).arg("--git-dir"@).cache_dir()
    }

    /// Clones the upstream as a bare mirror. Without blobs, git records the upstream as a promisor
    /// remote, so later fetches keep the filter.
    pub open spec fn clone(
        credentials: Option<CredentialsView>,
        url: Seq<char>,
        blobless: bool,
    ) -> GitCommandView {
        let clone = GitCommandView::git("clone"@, credentials).arg("clone"@).arg("--bare"@).arg(
            "--quiet"@,
        ).arg("--origin"@).arg("origin"@);
        let clone = if blobless {
            clone.arg("--filter=blob:none"@)
        } else {
            clone
        };
        clone.arg("--"@).arg(url).cache_dir()
    }

    /// Writes the commit-graph, which a clone does not.
    pub open spec fn commit_graph(credentials: Option<CredentialsView>) -> GitCommandView {
        GitCommandView::git_dir("commit-graph"@, credentials).arg("commit-graph"@).arg(
            "write"@,
        ).arg("--reachable"@)
    }

    /// Fetches all branches and tags: they map 1:1 onto local refs, and refs that are gone
    /// upstream are pruned.
    pub open spec fn fetch(credentials: Option<CredentialsView>) -> GitCommandView {
        GitCommandView::git_dir("fetch"@, credentials).arg("fetch"@).arg("--prune"@).arg(
            "--quiet"@,
        ).arg("--no-write-fetch-head"@).arg("origin"@).arg("+refs/heads/*:refs/heads/*"@).arg(
            "+refs/tags/*:refs/tags/*"@,
        )
    }

    /// Asks the upstream what its HEAD points to.
    pub open spec fn ls_remote(credentials: Option<CredentialsView>) -> GitCommandView {
        GitCommandView::git_dir("ls-remote"@, credentials).arg("ls-remote"@).arg("--symref"@).arg(
            "origin"@,
        ).arg("HEAD"@)
    }

    /// Points HEAD of the mirror to `target`.
    pub open spec fn symbolic_ref(
        credentials: Option<CredentialsView>,
        target: Seq<char>,
    ) -> GitCommandView {
        GitCommandView::git_dir("symbolic-ref"@, credentials).arg("symbolic-ref"@).arg(
            "HEAD"@,
        ).arg(target)
    }

    /// Fetches the objects `ids`. Asking for known objects needs no negotiation, and they add no
    /// commits.
    pub open spec fn fetch_objects(
        credentials: Option<CredentialsView>,
        ids: Seq<ObjectId>,
    ) -> GitCommandView {
        let fetch = GitCommandView::git_dir("fetch <objects>"@, credentials).config(
            "fetch.negotiationAlgorithm=noop"@,
        ).config("fetch.writeCommitGraph=false"@).arg("fetch"@).arg("--quiet"@).arg(
            "--no-tags"@,
        ).arg("--no-write-fetch-head"@).arg("--recurse-submodules=no"@).arg("--stdin"@).arg(
            "origin"@,
        );
        GitCommandView { input: Some(id_lines(ids)), ..fetch }
    }
}

/// The ids in hex digits, each on a line of its own.
pub open spec fn id_lines(ids: Seq<ObjectId>) -> Seq<char>
    decreases ids.len(),
{
    if ids.len() == 0 {
        Seq::empty()
    } else {
        id_lines(ids.drop_last()) + ids.last().hex() + "\n"@
    }
}

impl GitCommand {
    fn new(what: &str) -> (r: GitCommand)
        ensures
            r@ == GitCommandView::new(what@),
    {
        let r = GitCommand {
            what: what.to_owned(),
            args: Vec::new(),
            env: Vec::new(),
            input: None,
        };
        assert(r@ =~= GitCommandView::new(what@));
        r
    }

    fn arg(self, text: &str) -> (r: GitCommand)
        ensures
            r@ == self@.arg(text@),
    {
        let mut args = self.args;
        let arg = Arg::Text(text.to_owned());
        proof {
            lemma_views_push(args@, arg);
        }
        args.push(arg);
        GitCommand { what: self.what, args, env: self.env, input: self.input }
    }

    fn cache_dir(self) -> (r: GitCommand)
        ensures
            r@ == self@.cache_dir(),
    {
        let mut args = self.args;
        proof {
            lemma_views_push(args@, Arg::CacheDir);
        }
        args.push(Arg::CacheDir);
        GitCommand { what: self.what, args, env: self.env, input: self.input }
    }

    fn env(self, name: &str, value: &str) -> (r: GitCommand)
        ensures
            r@ == self@.env(name@, value@),
    {
        let mut env = self.env;
        let var = EnvVar { name: name.to_owned(), value: value.to_owned() };
        proof {
            lemma_views_push(env@, var);
        }
        env.push(var);
        GitCommand { what: self.what, args: self.args, env, input: self.input }
    }

    fn config(self, setting: &str) -> (r: GitCommand)
        ensures
            r@ == self@.config(setting@),
    {
        self.arg("-c").arg(setting)
    }

    fn pinned(self) -> (r: GitCommand)
        ensures
            r@ == self@.pinned(),
    {
        self.config("protocol.version=2").config("gc.auto=0").config(
            "maintenance.auto=false",
        ).config("fetch.writeCommitGraph=true").config("pack.writeReverseIndex=true")
    }

    fn authorized(self, credentials: &Option<Credentials>) -> (r: GitCommand)
        ensures
            r@ == self@.authorized(opt_view(*credentials)),
    {
        match credentials {
            Some(c) => {
                let reset = c.helper_key.clone().concat("=");
                let helper = c.helper_key.clone().concat("=").concat(CREDENTIAL_HELPER);
                self.config(reset.as_str()).config(helper.as_str()).env(
                    "GIT_SERVE_TOKEN_USER",
                    c.user.as_str(),
                ).env("GIT_SERVE_TOKEN", c.token.as_str())
            },
            None => self,
        }
    }

    /// A git command with the pinned config and, when configured, the upstream credentials.
    pub fn git(what: &str, credentials: &Option<Credentials>) -> (r: GitCommand)
        ensures
            r@ == GitCommandView::git(what@, opt_view(*credentials)),
    {
        Self::new(what).pinned().authorized(credentials).env("GIT_TERMINAL_PROMPT", "0")
    }

    /// [`GitCommand::git`] on the repository in the cache dir.
    pub fn git_dir(what: &str, credentials: &Option<Credentials>) -> (r: GitCommand)
        ensures
            r@ == GitCommandView::git_dir(what@, opt_view(*credentials)),
    {
        Self::git(what, credentials).arg("--git-dir").cache_dir()
    }

    /// Clones the upstream as a bare mirror.
    pub fn clone(credentials: &Option<Credentials>, url: &str, blobless: bool) -> (r: GitCommand)
        ensures
            r@ == GitCommandView::clone(opt_view(*credentials), url@, blobless),
    {
        let clone = Self::git("clone", credentials).arg("clone").arg("--bare").arg("--quiet").arg(
            "--origin",
        ).arg("origin");
        let clone = if blobless {
            clone.arg("--filter=blob:none")
        } else {
            clone
        };
        clone.arg("--").arg(url).cache_dir()
    }

    /// Writes the commit-graph, which a clone does not.
    pub fn commit_graph(credentials: &Option<Credentials>) -> (r: GitCommand)
        ensures
            r@ == GitCommandView::commit_graph(opt_view(*credentials)),
    {
        Self::git_dir("commit-graph", credentials).arg("commit-graph").arg("write").arg(
            "--reachable",
        )
    }

    /// Fetches all branches and tags.
    pub fn fetch(credentials: &Option<Credentials>) -> (r: GitCommand)
        ensures
            r@ == GitCommandView::fetch(opt_view(*credentials)),
    {
        Self::git_dir("fetch", credentials).arg("fetch").arg("--prune").arg("--quiet").arg(
            "--no-write-fetch-head",
        ).arg("origin").arg("+refs/heads/*:refs/heads/*").arg("+refs/tags/*:refs/tags/*")
    }

    /// Asks the upstream what its HEAD points to.
    pub fn ls_remote(credentials: &Option<Credentials>) -> (r: GitCommand)
        ensures
            r@ == GitCommandView::ls_remote(opt_view(*credentials)),
    {
        Self::git_dir("ls-remote", credentials).arg("ls-remote").arg("--symref").arg("origin").arg(
            "HEAD",
        )
    }

    /// Points HEAD of the mirror to `target`.
    pub fn symbolic_ref(credentials: &Option<Credentials>, target: &str) -> (r: GitCommand)
        ensures
            r@ == GitCommandView::symbolic_ref(opt_view(*credentials), target@),
    {
        Self::git_dir("symbolic-ref", credentials).arg("symbolic-ref").arg("HEAD").arg(target)
    }

    /// Fetches the objects `ids`.
    pub fn fetch_objects(credentials: &Option<Credentials>, ids: &Vec<ObjectId>) -> (r: GitCommand)
        ensures
            r@ == GitCommandView::fetch_objects(opt_view(*credentials), ids@),
    {
        let mut input = String::new();
        let len: usize = ids.len();
        assert(input@ =~= id_lines(ids@.take(0)));
        for i in 0..len
            invariant
                len == ids@.len(),
                input@ == id_lines(ids@.take(i as int)),
        {
            let ghost before = input@;
            assert(ids@.take(i + 1).drop_last() =~= ids@.take(i as int));
            ids[i].push_hex(&mut input);
            input.append("\n");
            assert(input@ =~= id_lines(ids@.take(i + 1)));
        }
        assert(ids@.take(len as int) =~= ids@);
        let fetch = Self::git_dir("fetch <objects>", credentials).config(
            "fetch.negotiationAlgorithm=noop",
        ).config("fetch.writeCommitGraph=false").arg("fetch").arg("--quiet").arg("--no-tags").arg(
            "--no-write-fetch-head",
        ).arg("--recurse-submodules=no").arg("--stdin").arg("origin");
        GitCommand { what: fetch.what, args: fetch.args, env: fetch.env, input: Some(input) }
    }
}

/// The credentials with another user and another token.
pub open spec fn swapped(
    credentials: CredentialsView,
    user: Seq<char>,
    token: Seq<char>,
) -> CredentialsView {
    CredentialsView { helper_key: credentials.helper_key, user, token }
}

/// The token is never in argv, nor in what a command reads: with another one, every command has
/// the same arguments and the same input.
pub proof fn law_token_is_not_in_argv(
    credentials: CredentialsView,
    user: Seq<char>,
    token: Seq<char>,
    url: Seq<char>,
    blobless: bool,
    target: Seq<char>,
    ids: Seq<ObjectId>,
)
    ensures
        ({
            let a = Some(credentials);
            let b = Some(swapped(credentials, user, token));
            &&& GitCommandView::clone(a, url, blobless).reads_like(
                GitCommandView::clone(b, url, blobless),
            )
            &&& GitCommandView::commit_graph(a).reads_like(GitCommandView::commit_graph(b))
            &&& GitCommandView::fetch(a).reads_like(GitCommandView::fetch(b))
            &&& GitCommandView::ls_remote(a).reads_like(GitCommandView::ls_remote(b))
            &&& GitCommandView::symbolic_ref(a, target).reads_like(
                GitCommandView::symbolic_ref(b, target),
            )
            &&& GitCommandView::fetch_objects(a, ids).reads_like(
                GitCommandView::fetch_objects(b, ids),
            )
        }),
{
}

impl GitCommandView {
    /// Whether two commands have the same arguments and the same input.
    pub open spec fn reads_like(self, other: GitCommandView) -> bool {
        self.args == other.args && self.input == other.input
    }
}

/// The token and its user reach git through the environment, and without credentials there is no
/// trace of them. No command ever waits for a prompt.
pub proof fn law_credentials_go_through_the_environment(
    what: Seq<char>,
    credentials: CredentialsView,
)
    ensures
        GitCommandView::git(what, Some(credentials)).env =~= seq![
            ("GIT_SERVE_TOKEN_USER"@, credentials.user),
            ("GIT_SERVE_TOKEN"@, credentials.token),
            ("GIT_TERMINAL_PROMPT"@, "0"@),
        ],
        GitCommandView::git(what, None).env =~= seq![("GIT_TERMINAL_PROMPT"@, "0"@)],
        GitCommandView::git(what, None).args =~= GitCommandView::new(what).pinned().args,
{
}

impl GitCommandView {
    /// Whether the arguments begin with the pinned settings.
    pub open spec fn is_pinned(self) -> bool {
        has_prefix(self.args, GitCommandView::new(self.what).pinned().args)
    }
}

/// The host's gitconfig cannot change the pinned settings: every command begins with them.
pub proof fn law_every_command_is_pinned(
    credentials: Option<CredentialsView>,
    url: Seq<char>,
    blobless: bool,
    target: Seq<char>,
    ids: Seq<ObjectId>,
)
    ensures
        GitCommandView::clone(credentials, url, blobless).is_pinned(),
        GitCommandView::commit_graph(credentials).is_pinned(),
        GitCommandView::fetch(credentials).is_pinned(),
        GitCommandView::ls_remote(credentials).is_pinned(),
        GitCommandView::symbolic_ref(credentials, target).is_pinned(),
        GitCommandView::fetch_objects(credentials, ids).is_pinned(),
{
    let pinned = GitCommandView::new("git"@).pinned().args;
    assert(GitCommandView::clone(credentials, url, blobless).args.take(10) =~= pinned);
    assert(GitCommandView::commit_graph(credentials).args.take(10) =~= pinned);
    assert(GitCommandView::fetch(credentials).args.take(10) =~= pinned);
    assert(GitCommandView::ls_remote(credentials).args.take(10) =~= pinned);
    assert(GitCommandView::symbolic_ref(credentials, target).args.take(10) =~= pinned);
    assert(GitCommandView::fetch_objects(credentials, ids).args.take(10) =~= pinned);
}

/// An object, and whether the cache holds it.
#[derive(Clone, Copy, Debug)]
pub struct Held {
    pub id: ObjectId,
    pub held: bool,
}

/// The objects that the cache does not hold, in their order.
pub open spec fn missing(objects: Seq<Held>) -> Seq<ObjectId>
    decreases objects.len(),
{
    if objects.len() == 0 {
        Seq::empty()
    } else if objects.last().held {
        missing(objects.drop_last())
    } else {
        missing(objects.drop_last()).push(objects.last().id)
    }
}

/// The command that fetches what the cache does not hold of `objects`, if anything.
pub open spec fn fetch_missing_command(
    credentials: Option<CredentialsView>,
    objects: Seq<Held>,
) -> Option<GitCommandView> {
    if missing(objects).len() == 0 {
        None
    } else {
        Some(GitCommandView::fetch_objects(credentials, missing(objects)))
    }
}

/// The command that fetches what the cache does not hold of `objects`, if anything.
pub fn fetch_missing(credentials: &Option<Credentials>, objects: &Vec<Held>) -> (r: Option<
    GitCommand,
>)
    ensures
        opt_view(r) == fetch_missing_command(opt_view(*credentials), objects@),
{
    let mut ids: Vec<ObjectId> = Vec::new();
    let len: usize = objects.len();
    assert(ids@ =~= missing(objects@.take(0)));
    for i in 0..len
        invariant
            len == objects@.len(),
            ids@ == missing(objects@.take(i as int)),
    {
        assert(objects@.take(i + 1).drop_last() =~= objects@.take(i as int));
        let object: Held = objects[i];
        if !object.held {
            ids.push(object.id);
        }
    }
    assert(objects@.take(len as int) =~= objects@);
    if ids.len() == 0 {
        None
    } else {
        Some(GitCommand::fetch_objects(credentials, &ids))
    }
}

/// Exactly the objects that the cache does not hold are fetched.
pub proof fn law_only_missing_objects_are_fetched(objects: Seq<Held>)
    ensures
        missing(objects).len() <= objects.len(),
        forall|i: int|
            0 <= i < objects.len() && !(#[trigger] objects[i]).held ==> missing(objects).contains(
                objects[i].id,
            ),
        forall|k: int|
            0 <= k < missing(objects).len() ==> lacked(objects, #[trigger] missing(objects)[k]),
    decreases objects.len(),
{
    if objects.len() > 0 {
        let before = objects.drop_last();
        let all = missing(objects);
        law_only_missing_objects_are_fetched(before);
        assert forall|i: int| 0 <= i < objects.len() && !(#[trigger] objects[i]).held implies
            all.contains(objects[i].id) by {
            if i < before.len() {
                assert(objects[i] == before[i]);
                let k = missing(before).index_of(before[i].id);
                assert(all[k] == missing(before)[k]);
            } else {
                assert(all[all.len() - 1] == objects[i].id);
            }
        }
        assert forall|k: int| 0 <= k < all.len() implies lacked(objects, #[trigger] all[k]) by {
            if k < missing(before).len() {
                assert(lacked(before, missing(before)[k]));
                let i = choose|i: int|
                    0 <= i < before.len() && !(#[trigger] before[i]).held && before[i].id
                        == missing(before)[k];
                assert(objects[i] == before[i]);
            } else {
                assert(objects[objects.len() - 1].id == all[k]);
            }
        }
    }
}

/// Whether the cache lacks the object `id` of `objects`.
pub open spec fn lacked(objects: Seq<Held>, id: ObjectId) -> bool {
    exists|i: int| 0 <= i < objects.len() && !(#[trigger] objects[i]).held && objects[i].id == id
}

/// The branch that a line of `ls-remote --symref` says HEAD points to, if it says one.
pub open spec fn head_target(line: Seq<char>) -> Option<Seq<char>> {
    if has_prefix(line, "ref: "@) {
        let rest = line.skip("ref: "@.len() as int);
        if has_suffix(rest, "\tHEAD"@) {
            let target = rest.take(rest.len() - "\tHEAD"@.len());
            if has_prefix(target, "refs/heads/"@) {
                Some(target)
            } else {
                None
            }
        } else {
            None
        }
    } else {
        None
    }
}

/// What the first of several lines that says so gives as the target of HEAD.
pub open spec fn first_target(lines: Seq<Seq<char>>) -> Option<Seq<char>>
    decreases lines.len(),
{
    if lines.len() == 0 {
        None
    } else if head_target(lines[0]) is Some {
        head_target(lines[0])
    } else {
        first_target(lines.skip(1))
    }
}

/// The branch that a line, the characters from `at` to `end`, says HEAD points to.
fn target_between(out: &str, chars: &Vec<char>, at: usize, end: usize) -> (r: Option<String>)
    requires
        chars@ == out@,
        at <= end <= chars@.len(),
    ensures
        opt_view(r) == head_target(chars@.subrange(at as int, end as int)),
{
    let ghost line = chars@.subrange(at as int, end as int);
    proof {
        reveal_strlit("ref: ");
        reveal_strlit("\tHEAD");
        reveal_strlit("refs/heads/");
    }
    if !word_at(chars, at, end, "ref: ") {
        return None;
    }
    let ghost rest = line.skip(5);
    if end - at < 10 {
        return None;
    }
    proof {
        assert(rest.skip(rest.len() - 5) =~= chars@.subrange(end - 5, end as int));
        let tail = chars@.subrange(end - 5, end as int);
        assert(tail.take(5) =~= tail);
    }
    if !word_at(chars, end - 5, end, "\tHEAD") {
        return None;
    }
    proof {
        assert(rest.take(rest.len() - 5) =~= chars@.subrange(at + 5, end - 5));
    }
    if !word_at(chars, at + 5, end - 5, "refs/heads/") {
        return None;
    }
    Some(out.substring_char(at + 5, end - 5).to_owned())
}

/// The branch that the output of `ls-remote --symref` says the upstream's HEAD points to. An
/// upstream with a detached HEAD has no such line.
pub fn symref_target(out: &str) -> (r: Option<String>)
    ensures
        opt_view(r) == first_target(lines(out@)),
{
    let chars = to_chars(out);
    let len: usize = chars.len();
    let mut at: usize = 0;
    let ghost goal = first_target(lines(out@));
    assert(chars@.skip(0) =~= chars@);
    while at < len
        invariant
            len == chars@.len(),
            chars@ == out@,
            at <= len,
            goal == first_target(lines(out@)),
            goal == first_target(lines(chars@.skip(at as int))),
        ensures
            at == len,
        decreases len - at,
    {
        let ghost rest = chars@.skip(at as int);
        let mut end: usize = at;
        while end < len && chars[end] != '\n'
            invariant
                len == chars@.len(),
                at <= end <= len,
                rest == chars@.skip(at as int),
                forall|i: int| 0 <= i < end - at ==> #[trigger] rest[i] != '\n',
            decreases len - end,
        {
            end = end + 1;
        }
        proof {
            lemma_line_end_is(rest, end - at);
        }
        if end == len {
            proof {
                assert(chars@.subrange(at as int, end as int) =~= rest);
                assert(lines(rest) =~= seq![rest]);
                assert(seq![rest].skip(1) =~= Seq::<Seq<char>>::empty());
                reveal_with_fuel(first_target, 2);
            }
            return target_between(out, &chars, at, end);
        }
        let ghost line = rest.take(end - at);
        let stop: usize = if end > at && chars[end - 1] == '\r' {
            end - 1
        } else {
            end
        };
        proof {
            assert(without_cr(line) =~= chars@.subrange(at as int, stop as int));
            assert(rest.skip(end - at + 1) =~= chars@.skip(end + 1));
            let all = lines(rest);
            assert(all[0] == without_cr(line));
            assert(all.skip(1) =~= lines(chars@.skip(end + 1)));
        }
        match target_between(out, &chars, at, stop) {
            Some(target) => return Some(target),
            None => {},
        }
        at = end + 1;
    }
    assert(chars@.skip(at as int) =~= Seq::<char>::empty());
    None
}

/// Where the upstream's HEAD points to a branch, the first line of the output says so and the
/// branch is found.
pub proof fn law_head_branch_is_found(branch: Seq<char>, rest: Seq<char>)
    requires
        has_prefix(branch, "refs/heads/"@),
        forall|i: int| 0 <= i < branch.len() ==> #[trigger] branch[i] != '\n',
    ensures
        first_target(lines("ref: "@ + branch + "\tHEAD\n"@ + rest)) == Some(branch),
{
    reveal_strlit("ref: ");
    reveal_strlit("\tHEAD");
    reveal_strlit("\tHEAD\n");
    let out = "ref: "@ + branch + "\tHEAD\n"@ + rest;
    let n = branch.len() + 10;
    let line = "ref: "@ + branch + "\tHEAD"@;
    assert forall|i: int| 0 <= i < n implies #[trigger] out[i] != '\n' by {
        if 5 <= i < branch.len() + 5 {
            assert(out[i] == branch[i - 5]);
        }
    }
    lemma_line_end_is(out, n as int);
    assert(out.take(n as int) =~= line);
    assert(without_cr(line) == line);
    assert(lines(out)[0] == line);
    assert(line.take(5) =~= "ref: "@);
    assert(line.skip(5) =~= branch + "\tHEAD"@);
    assert((branch + "\tHEAD"@).skip(branch.len() as int) =~= "\tHEAD"@);
    assert((branch + "\tHEAD"@).take(branch.len() as int) =~= branch);
}

/// An upstream with a detached HEAD says no branch.
pub proof fn law_detached_head_has_no_target(lines: Seq<Seq<char>>)
    requires
        forall|i: int| 0 <= i < lines.len() ==> !has_prefix(#[trigger] lines[i], "ref: "@),
    ensures
        first_target(lines) is None,
    decreases lines.len(),
{
    if lines.len() > 0 {
        assert forall|i: int| 0 <= i < lines.skip(1).len() implies !has_prefix(
            #[trigger] lines.skip(1)[i],
            "ref: "@,
        ) by {
            assert(lines.skip(1)[i] == lines[i + 1]);
        }
        law_detached_head_has_no_target(lines.skip(1));
    }
}

/// Texts as arguments.
pub open spec fn texts(all: Seq<Seq<char>>) -> Seq<ArgView> {
    all.map_values(|text: Seq<char>| ArgView::Text(text))
}

/// The helper prints, as the user name and the password, the two environment variables that hold
/// the user and the token, and nothing unless credentials are asked for.
pub proof fn law_helper_reads_the_environment()
    ensures
        CREDENTIAL_HELPER@
            == "!f() { test \"$1\" = get && printf 'username=%s\\npassword=%s\\n' \"$"@
            + "GIT_SERVE_TOKEN_USER"@ + "\" \"$"@ + "GIT_SERVE_TOKEN"@ + "\"; }; f"@,
{
    reveal_strlit(
        "!f() { test \"$1\" = get && printf 'username=%s\\npassword=%s\\n' \"$GIT_SERVE_TOKEN_USER\" \"$GIT_SERVE_TOKEN\"; }; f",
    );
    reveal_strlit("!f() { test \"$1\" = get && printf 'username=%s\\npassword=%s\\n' \"$");
    reveal_strlit("GIT_SERVE_TOKEN_USER");
    reveal_strlit("\" \"$");
    reveal_strlit("GIT_SERVE_TOKEN");
    reveal_strlit("\"; }; f");
    assert(CREDENTIAL_HELPER@
        =~= "!f() { test \"$1\" = get && printf 'username=%s\\npassword=%s\\n' \"$"@
        + "GIT_SERVE_TOKEN_USER"@ + "\" \"$"@ + "GIT_SERVE_TOKEN"@ + "\"; }; f"@);
}

/// Every command carries the credentials it is given, whatever it does: the environment holds the
/// user and the token, and among the arguments the helper is set under the key of the credentials,
/// behind an empty setting of the same key. Nothing follows from the credentials but that.
pub proof fn law_every_command_carries_its_credentials(
    c: CredentialsView,
    url: Seq<char>,
    blobless: bool,
    target: Seq<char>,
    ids: Seq<ObjectId>,
)
    ensures
        forall|command: GitCommandView|
            command == GitCommandView::clone(Some(c), url, blobless) || command
                == GitCommandView::commit_graph(Some(c)) || command == GitCommandView::fetch(
                Some(c),
            ) || command == GitCommandView::ls_remote(Some(c)) || command
                == GitCommandView::symbolic_ref(Some(c), target) || command
                == GitCommandView::fetch_objects(Some(c), ids) ==> {
                &&& #[trigger] command.env.len() == 3
                &&& command.env[0] == ("GIT_SERVE_TOKEN_USER"@, c.user)
                &&& command.env[1] == ("GIT_SERVE_TOKEN"@, c.token)
                &&& command.env[2] == ("GIT_TERMINAL_PROMPT"@, "0"@)
                &&& command.args.len() > 14
                &&& command.args[10] == ArgView::Text("-c"@)
                &&& command.args[11] == ArgView::Text(c.helper_key + "="@)
                &&& command.args[12] == ArgView::Text("-c"@)
                &&& command.args[13] == ArgView::Text(c.helper_key + "="@ + CREDENTIAL_HELPER@)
            },
{
}

/// Without credentials a command has no user, no token and no helper: its environment says only
/// that it must not wait for a prompt, and its arguments are those of the command with credentials
/// without the four that name the helper.
pub proof fn law_no_credentials_leave_no_trace(
    c: CredentialsView,
    url: Seq<char>,
    blobless: bool,
    target: Seq<char>,
    ids: Seq<ObjectId>,
)
    ensures
        ({
            let with = GitCommandView::clone(Some(c), url, blobless);
            let without = GitCommandView::clone(None, url, blobless);
            &&& without.env == seq![("GIT_TERMINAL_PROMPT"@, "0"@)]
            &&& without.args == with.args.take(10) + with.args.skip(14)
            &&& without.input == with.input
        }),
        ({
            let with = GitCommandView::commit_graph(Some(c));
            let without = GitCommandView::commit_graph(None);
            &&& without.env == seq![("GIT_TERMINAL_PROMPT"@, "0"@)]
            &&& without.args == with.args.take(10) + with.args.skip(14)
            &&& without.input == with.input
        }),
        ({
            let with = GitCommandView::fetch(Some(c));
            let without = GitCommandView::fetch(None);
            &&& without.env == seq![("GIT_TERMINAL_PROMPT"@, "0"@)]
            &&& without.args == with.args.take(10) + with.args.skip(14)
            &&& without.input == with.input
        }),
        ({
            let with = GitCommandView::ls_remote(Some(c));
            let without = GitCommandView::ls_remote(None);
            &&& without.env == seq![("GIT_TERMINAL_PROMPT"@, "0"@)]
            &&& without.args == with.args.take(10) + with.args.skip(14)
            &&& without.input == with.input
        }),
        ({
            let with = GitCommandView::symbolic_ref(Some(c), target);
            let without = GitCommandView::symbolic_ref(None, target);
            &&& without.env == seq![("GIT_TERMINAL_PROMPT"@, "0"@)]
            &&& without.args == with.args.take(10) + with.args.skip(14)
            &&& without.input == with.input
        }),
        ({
            let with = GitCommandView::fetch_objects(Some(c), ids);
            let without = GitCommandView::fetch_objects(None, ids);
            &&& without.env == seq![("GIT_TERMINAL_PROMPT"@, "0"@)]
            &&& without.args == with.args.take(10) + with.args.skip(14)
            &&& without.input == with.input
        }),
{
    let a = GitCommandView::clone(None, url, blobless);
    let b = GitCommandView::clone(Some(c), url, blobless);
    assert(a.env =~= seq![("GIT_TERMINAL_PROMPT"@, "0"@)]);
    assert(a.args =~= b.args.take(10) + b.args.skip(14));
    let a = GitCommandView::commit_graph(None);
    let b = GitCommandView::commit_graph(Some(c));
    assert(a.env =~= seq![("GIT_TERMINAL_PROMPT"@, "0"@)]);
    assert(a.args =~= b.args.take(10) + b.args.skip(14));
    let a = GitCommandView::fetch(None);
    let b = GitCommandView::fetch(Some(c));
    assert(a.env =~= seq![("GIT_TERMINAL_PROMPT"@, "0"@)]);
    assert(a.args =~= b.args.take(10) + b.args.skip(14));
    let a = GitCommandView::ls_remote(None);
    let b = GitCommandView::ls_remote(Some(c));
    assert(a.env =~= seq![("GIT_TERMINAL_PROMPT"@, "0"@)]);
    assert(a.args =~= b.args.take(10) + b.args.skip(14));
    let a = GitCommandView::symbolic_ref(None, target);
    let b = GitCommandView::symbolic_ref(Some(c), target);
    assert(a.env =~= seq![("GIT_TERMINAL_PROMPT"@, "0"@)]);
    assert(a.args =~= b.args.take(10) + b.args.skip(14));
    let a = GitCommandView::fetch_objects(None, ids);
    let b = GitCommandView::fetch_objects(Some(c), ids);
    assert(a.env =~= seq![("GIT_TERMINAL_PROMPT"@, "0"@)]);
    assert(a.args =~= b.args.take(10) + b.args.skip(14));
}

/// What every command says to git after its settings, and what it is called.
pub proof fn law_commands_say_what_they_do(
    credentials: Option<CredentialsView>,
    url: Seq<char>,
    target: Seq<char>,
    ids: Seq<ObjectId>,
)
    ensures
        ({
            let n = if credentials is Some {
                14int
            } else {
                10int
            };
            let clone = GitCommandView::clone(credentials, url, false);
            let blobless = GitCommandView::clone(credentials, url, true);
            let graph = GitCommandView::commit_graph(credentials);
            let fetch = GitCommandView::fetch(credentials);
            let ask = GitCommandView::ls_remote(credentials);
            let point = GitCommandView::symbolic_ref(credentials, target);
            let objects = GitCommandView::fetch_objects(credentials, ids);
            let dir = texts(seq!["--git-dir"@]).push(ArgView::CacheDir);
            &&& clone.args.skip(n) == texts(
                seq!["clone"@, "--bare"@, "--quiet"@, "--origin"@, "origin"@, "--"@, url],
            ).push(ArgView::CacheDir)
            &&& blobless.args.skip(n) == texts(
                seq![
                    "clone"@,
                    "--bare"@,
                    "--quiet"@,
                    "--origin"@,
                    "origin"@,
                    "--filter=blob:none"@,
                    "--"@,
                    url,
                ],
            ).push(ArgView::CacheDir)
            &&& graph.args.skip(n) == dir + texts(seq!["commit-graph"@, "write"@, "--reachable"@])
            &&& fetch.args.skip(n) == dir + texts(
                seq![
                    "fetch"@,
                    "--prune"@,
                    "--quiet"@,
                    "--no-write-fetch-head"@,
                    "origin"@,
                    "+refs/heads/*:refs/heads/*"@,
                    "+refs/tags/*:refs/tags/*"@,
                ],
            )
            &&& ask.args.skip(n) == dir + texts(
                seq!["ls-remote"@, "--symref"@, "origin"@, "HEAD"@],
            )
            &&& point.args.skip(n) == dir + texts(seq!["symbolic-ref"@, "HEAD"@, target])
            &&& objects.args.skip(n) == dir + texts(
                seq![
                    "-c"@,
                    "fetch.negotiationAlgorithm=noop"@,
                    "-c"@,
                    "fetch.writeCommitGraph=false"@,
                    "fetch"@,
                    "--quiet"@,
                    "--no-tags"@,
                    "--no-write-fetch-head"@,
                    "--recurse-submodules=no"@,
                    "--stdin"@,
                    "origin"@,
                ],
            )
            &&& clone.what == "clone"@ && blobless.what == "clone"@
            &&& graph.what == "commit-graph"@
            &&& fetch.what == "fetch"@
            &&& ask.what == "ls-remote"@
            &&& point.what == "symbolic-ref"@
            &&& objects.what == "fetch <objects>"@
            &&& clone.input is None && blobless.input is None && graph.input is None
            &&& fetch.input is None && ask.input is None && point.input is None
            &&& objects.input is Some
        }),
{
    let n = if credentials is Some {
        14int
    } else {
        10int
    };
    let dir = texts(seq!["--git-dir"@]).push(ArgView::CacheDir);
    assert(GitCommandView::clone(credentials, url, false).args.skip(n) =~= texts(
        seq!["clone"@, "--bare"@, "--quiet"@, "--origin"@, "origin"@, "--"@, url],
    ).push(ArgView::CacheDir));
    assert(GitCommandView::clone(credentials, url, true).args.skip(n) =~= texts(
        seq![
            "clone"@,
            "--bare"@,
            "--quiet"@,
            "--origin"@,
            "origin"@,
            "--filter=blob:none"@,
            "--"@,
            url,
        ],
    ).push(ArgView::CacheDir));
    assert(GitCommandView::commit_graph(credentials).args.skip(n) =~= dir + texts(
        seq!["commit-graph"@, "write"@, "--reachable"@],
    ));
    assert(GitCommandView::fetch(credentials).args.skip(n) =~= dir + texts(
        seq![
            "fetch"@,
            "--prune"@,
            "--quiet"@,
            "--no-write-fetch-head"@,
            "origin"@,
            "+refs/heads/*:refs/heads/*"@,
            "+refs/tags/*:refs/tags/*"@,
        ],
    ));
    assert(GitCommandView::ls_remote(credentials).args.skip(n) =~= dir + texts(
        seq!["ls-remote"@, "--symref"@, "origin"@, "HEAD"@],
    ));
    assert(GitCommandView::symbolic_ref(credentials, target).args.skip(n) =~= dir + texts(
        seq!["symbolic-ref"@, "HEAD"@, target],
    ));
    assert(GitCommandView::fetch_objects(credentials, ids).args.skip(n) =~= dir + texts(
        seq![
            "-c"@,
            "fetch.negotiationAlgorithm=noop"@,
            "-c"@,
            "fetch.writeCommitGraph=false"@,
            "fetch"@,
            "--quiet"@,
            "--no-tags"@,
            "--no-write-fetch-head"@,
            "--recurse-submodules=no"@,
            "--stdin"@,
            "origin"@,
        ],
    ));
}

/// Every command pins the same five settings before anything else, with or without credentials.
pub proof fn law_settings_come_first(
    credentials: Option<CredentialsView>,
    url: Seq<char>,
    blobless: bool,
    target: Seq<char>,
    ids: Seq<ObjectId>,
)
    ensures
        ({
            let pinned = texts(
                seq![
                    "-c"@,
                    "protocol.version=2"@,
                    "-c"@,
                    "gc.auto=0"@,
                    "-c"@,
                    "maintenance.auto=false"@,
                    "-c"@,
                    "fetch.writeCommitGraph=true"@,
                    "-c"@,
                    "pack.writeReverseIndex=true"@,
                ],
            );
            &&& GitCommandView::clone(credentials, url, blobless).args.take(10) == pinned
            &&& GitCommandView::commit_graph(credentials).args.take(10) == pinned
            &&& GitCommandView::fetch(credentials).args.take(10) == pinned
            &&& GitCommandView::ls_remote(credentials).args.take(10) == pinned
            &&& GitCommandView::symbolic_ref(credentials, target).args.take(10) == pinned
            &&& GitCommandView::fetch_objects(credentials, ids).args.take(10) == pinned
        }),
{
    let pinned = texts(
        seq![
            "-c"@,
            "protocol.version=2"@,
            "-c"@,
            "gc.auto=0"@,
            "-c"@,
            "maintenance.auto=false"@,
            "-c"@,
            "fetch.writeCommitGraph=true"@,
            "-c"@,
            "pack.writeReverseIndex=true"@,
        ],
    );
    assert(GitCommandView::clone(credentials, url, blobless).args.take(10) =~= pinned);
    assert(GitCommandView::commit_graph(credentials).args.take(10) =~= pinned);
    assert(GitCommandView::fetch(credentials).args.take(10) =~= pinned);
    assert(GitCommandView::ls_remote(credentials).args.take(10) =~= pinned);
    assert(GitCommandView::symbolic_ref(credentials, target).args.take(10) =~= pinned);
    assert(GitCommandView::fetch_objects(credentials, ids).args.take(10) =~= pinned);
}

proof fn lemma_id_line(ids: Seq<ObjectId>, i: int)
    requires
        0 <= i < ids.len(),
    ensures
        id_lines(ids).len() == 41 * ids.len(),
        id_lines(ids).subrange(41 * i, 41 * i + 40) == ids[i].hex(),
        id_lines(ids)[41 * i + 40] == '\n',
    decreases ids.len(),
{
    reveal_strlit("\n");
    let front = ids.drop_last();
    let all = id_lines(ids);
    if front.len() == 0 {
        assert(id_lines(front).len() == 0);
    } else {
        lemma_id_line(front, if i < front.len() { i } else { 0 });
    }
    if i < front.len() {
        assert(all.subrange(41 * i, 41 * i + 40) =~= id_lines(front).subrange(
            41 * i,
            41 * i + 40,
        ));
    } else {
        assert(all.subrange(41 * i, 41 * i + 40) =~= ids[i].hex());
    }
}

/// The objects to fetch are handed to git in their order, each as its hex digits on a line of its
/// own, with nothing before, between or after the lines.
pub proof fn law_objects_are_handed_over_line_by_line(
    credentials: Option<CredentialsView>,
    ids: Seq<ObjectId>,
)
    ensures
        GitCommandView::fetch_objects(credentials, ids).input matches Some(input) && {
            &&& input.len() == 41 * ids.len()
            &&& forall|i: int| #![trigger ids[i]]
                0 <= i < ids.len() ==> input.subrange(41 * i, 41 * i + 40) == ids[i].hex()
                    && input[41 * i + 40] == '\n'
        },
{
    assert forall|i: int| #![trigger ids[i]] 0 <= i < ids.len() implies id_lines(ids).subrange(
        41 * i,
        41 * i + 40,
    ) == ids[i].hex() && id_lines(ids)[41 * i + 40] == '\n' by {
        lemma_id_line(ids, i);
    }
    if ids.len() > 0 {
        lemma_id_line(ids, 0);
    }
}

/// What is fetched is what the cache does not hold, in the order in which it was asked for, and
/// there is a command only if that is anything.
pub proof fn law_missing_objects_keep_their_order(
    credentials: Option<CredentialsView>,
    objects: Seq<Held>,
)
    ensures
        missing(objects) == objects.filter(|object: Held| !object.held).map_values(
            |object: Held| object.id,
        ),
        fetch_missing_command(credentials, objects) is None <==> forall|i: int|
            0 <= i < objects.len() ==> (#[trigger] objects[i]).held,
        fetch_missing_command(credentials, objects) matches Some(command) ==> command
            == GitCommandView::fetch_objects(credentials, missing(objects)),
    decreases objects.len(),
{
    let lacks = |object: Held| !object.held;
    let id = |object: Held| object.id;
    reveal(Seq::filter);
    if objects.len() == 0 {
        assert(missing(objects) =~= objects.filter(lacks).map_values(id));
    } else {
        let front = objects.drop_last();
        law_missing_objects_keep_their_order(credentials, front);
        assert(missing(objects) =~= objects.filter(lacks).map_values(id));
        if fetch_missing_command(credentials, objects) is None {
            assert forall|i: int| 0 <= i < objects.len() implies (#[trigger] objects[i]).held by {
                if i < front.len() {
                    assert(front[i] == objects[i]);
                }
            }
        } else if forall|i: int| 0 <= i < objects.len() ==> (#[trigger] objects[i]).held {
            assert forall|i: int| 0 <= i < front.len() implies (#[trigger] front[i]).held by {
                assert(front[i] == objects[i]);
            }
            assert(objects[objects.len() - 1].held);
        }
    }
}

/// A line says that HEAD points to a branch exactly if it is made of `ref: `, the full name of the
/// branch, a tab and `HEAD`.
pub proof fn law_head_line_names_the_branch(line: Seq<char>, branch: Seq<char>, target: Seq<char>)
    ensures
        head_target("ref: refs/heads/"@ + branch + "\tHEAD"@) == Some("refs/heads/"@ + branch),
        head_target(line) == Some(target) ==> line == "ref: "@ + target + "\tHEAD"@
            && target.len() >= 11 && target.take(11) == "refs/heads/"@,
{
    reveal_strlit("ref: ");
    reveal_strlit("\tHEAD");
    reveal_strlit("refs/heads/");
    reveal_strlit("ref: refs/heads/");
    let full = "refs/heads/"@ + branch;
    let whole = "ref: refs/heads/"@ + branch + "\tHEAD"@;
    assert(whole.take(5) =~= "ref: "@);
    assert(whole.skip(5) =~= full + "\tHEAD"@);
    assert((full + "\tHEAD"@).skip(full.len() as int) =~= "\tHEAD"@);
    assert((full + "\tHEAD"@).take(full.len() as int) =~= full);
    assert(full.take(11) =~= "refs/heads/"@);
    if head_target(line) == Some(target) {
        let rest = line.skip(5);
        assert(line =~= line.take(5) + rest);
        assert(rest =~= rest.take(rest.len() - 5) + rest.skip(rest.len() - 5));
        assert(line =~= "ref: "@ + target + "\tHEAD"@);
    }
}

/// The first line that names a branch is the one that counts, and without one there is none.
pub proof fn law_first_head_line_counts(lines: Seq<Seq<char>>, n: int)
    requires
        0 <= n <= lines.len(),
        forall|i: int| 0 <= i < n ==> head_target(#[trigger] lines[i]) is None,
    ensures
        n < lines.len() && head_target(lines[n]) is Some ==> first_target(lines) == head_target(
            lines[n],
        ),
        n == lines.len() ==> first_target(lines) is None,
    decreases n,
{
    if n > 0 {
        assert(head_target(lines[0]) is None);
        let rest = lines.skip(1);
        assert forall|i: int| 0 <= i < n - 1 implies head_target(#[trigger] rest[i]) is None by {
            assert(rest[i] == lines[i + 1]);
        }
        law_first_head_line_counts(rest, n - 1);
        if n < lines.len() {
            assert(rest[n - 1] == lines[n]);
        }
    }
}

/// A command is seen with all its parts.
pub proof fn law_command_is_seen_in_full(command: GitCommand, c: Credentials, text: String)
    ensures
        command@.what == command.what@,
        command@.args.len() == command.args@.len(),
        forall|i: int|
            0 <= i < command.args@.len() ==> #[trigger] command@.args[i] == command.args@[i]@,
        command@.env.len() == command.env@.len(),
        forall|i: int|
            0 <= i < command.env@.len() ==> #[trigger] command@.env[i] == (
                command.env@[i].name@,
                command.env@[i].value@,
            ),
        command.input matches Some(input) ==> command@.input == Some(input@),
        command.input is None ==> command@.input is None,
        Arg::Text(text)@ == ArgView::Text(text@),
        Arg::CacheDir@ == ArgView::CacheDir,
        c@.helper_key == c.helper_key@,
        c@.user == c.user@,
        c@.token == c.token@,
{
}

} // verus!
