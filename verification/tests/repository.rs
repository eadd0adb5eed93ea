//! Requests answered from a repository that `gix` reads and writes.
use std::cell::{Cell, RefCell};
use std::collections::BTreeMap;

use git_serve::api::{self, FileNeed, FileResponse, LogQuery, LogRequest, RevQuery};
use git_serve::error::AppError;
use git_serve::log::{LogNeed, Walked};
use git_serve::object_id::ObjectId;
use git_serve::repo::{
    list_refs, resolve_commit, BlobRead, CommitInfo, FoundEntry, FoundRef, Kind, RefInfo, RefRead,
    Refs, RevRead,
};
use git_serve::config::MirrorConfig;
use git_serve::git::Arg;
use git_serve::mirror::{CacheRead, Freshness, Mirror, RepoRead, SyncError, WorkerStep};
use git_serve::status::Timestamp;
use git_serve::sync::{
    ref_state, same_refs, HeadRead, RawRef, RawRefRead, RefTarget, SyncNeed, SyncRun,
};
use git_serve::tree::{ReadTree, TreeEntry, TreeNeed};
use gix::bstr::ByteSlice;
use gix::refs::transaction::{Change, LogChange, PreviousValue, RefEdit, RefLog};
use gix::Repository;
use tempfile::TempDir;

type Files = BTreeMap<String, (gix::objs::tree::EntryKind, Vec<u8>)>;

fn to_id(id: &gix::oid) -> ObjectId {
    let bytes = id.as_bytes();
    ObjectId {
        high: u128::from_be_bytes(bytes[..16].try_into().unwrap()),
        low: u32::from_be_bytes(bytes[16..].try_into().unwrap()),
    }
}

fn from_id(id: ObjectId) -> gix::ObjectId {
    let mut bytes = id.high.to_be_bytes().to_vec();
    bytes.extend(id.low.to_be_bytes());
    gix::ObjectId::from_bytes_or_panic(&bytes)
}

/// A bare repository, and the files that its next commit holds.
struct Fixture {
    _tmp: TempDir,
    repo: Repository,
    files: RefCell<Files>,
    commits: Cell<i64>,
}

impl Fixture {
    fn new() -> Self {
        let tmp = TempDir::new().unwrap();
        let repo = gix::init_bare(tmp.path().join("cache")).unwrap();
        Self {
            _tmp: tmp,
            repo,
            files: RefCell::new(Files::new()),
            commits: Cell::new(0),
        }
    }

    fn write_tree(&self, prefix: &str) -> gix::ObjectId {
        let mut entries: BTreeMap<String, (gix::objs::tree::EntryKind, gix::ObjectId)> =
            BTreeMap::new();
        let mut dirs = Vec::new();
        for (path, (kind, data)) in self.files.borrow().iter() {
            let Some(rest) = path.strip_prefix(prefix) else {
                continue;
            };
            match rest.split_once('/') {
                None => {
                    let id = self.repo.write_blob(data).unwrap().detach();
                    entries.insert(rest.to_owned(), (*kind, id));
                }
                Some((dir, _)) => dirs.push(dir.to_owned()),
            }
        }
        for dir in dirs {
            let id = self.write_tree(&format!("{prefix}{dir}/"));
            entries.insert(dir, (gix::objs::tree::EntryKind::Tree, id));
        }
        let mut tree = gix::objs::Tree::empty();
        for (name, (kind, oid)) in entries {
            tree.entries.push(gix::objs::tree::Entry {
                mode: kind.into(),
                filename: name.into(),
                oid,
            });
        }
        tree.entries.sort();
        self.repo.write_object(&tree).unwrap().detach()
    }

    fn set_ref(&self, name: &str, id: gix::ObjectId) {
        self.repo
            .edit_reference(RefEdit {
                change: Change::Update {
                    log: LogChange {
                        mode: RefLog::AndReference,
                        force_create_reflog: false,
                        message: "".into(),
                    },
                    expected: PreviousValue::Any,
                    new: gix::refs::Target::Object(id),
                },
                name: name.try_into().unwrap(),
                deref: false,
            })
            .unwrap();
    }

    fn delete_ref(&self, name: &str) {
        self.repo.find_reference(name).unwrap().delete().unwrap();
    }

    /// Runs a sync whose clone or fetch does what `fetch` does to the repository.
    fn sync(
        &self,
        mirror: &mut Mirror,
        now: Timestamp,
        fetch: impl Fn(&Self) -> Result<String, SyncError>,
    ) -> Vec<String> {
        let mut commands = Vec::new();
        let mut run: SyncRun = match mirror.next_step(false) {
            WorkerStep::Run(run) => run,
            WorkerStep::Wait | WorkerStep::Stop => panic!("nothing is queued"),
        };
        loop {
            run = match run.need(mirror.upstream()) {
                SyncNeed::Refs => run.on_refs(Ok(self.ref_state())),
                SyncNeed::Run(command) => {
                    let output = match command.what.as_str() {
                        "clone" => fetch(self),
                        "fetch" => {
                            assert!(texts(&command.args).contains(&"--prune"));
                            fetch(self)
                        }
                        "ls-remote" => Ok("ref: refs/heads/main\tHEAD\n".to_owned()),
                        _ => Ok(String::new()),
                    };
                    commands.push(command.what);
                    run.on_run(output)
                }
                SyncNeed::Head(target) => run.on_head(Ok(HeadRead {
                    current: self
                        .repo
                        .head_name()
                        .unwrap()
                        .map(|n| n.as_bstr().to_vec()),
                    exists: self.repo.try_find_reference(&target).unwrap().is_some(),
                })),
                SyncNeed::ClearDir => run.on_clear(Ok(())),
                SyncNeed::Open => run.on_open(Ok(())),
                SyncNeed::Nothing => {
                    let (result, has_repo, head_checked) = run.finish();
                    mirror.finish_sync(now, result, has_repo, head_checked);
                    return commands;
                }
            };
        }
    }

    fn commit_on(
        &self,
        branch: &str,
        parents: &[gix::ObjectId],
        files: &[(&str, &str)],
        message: &str,
    ) -> gix::ObjectId {
        for (path, content) in files {
            self.files.borrow_mut().insert(
                (*path).to_owned(),
                (
                    gix::objs::tree::EntryKind::Blob,
                    content.as_bytes().to_vec(),
                ),
            );
        }
        // Distinct timestamps keep commit-time ordering deterministic.
        let n = self.commits.get() + 1;
        self.commits.set(n);
        let who = gix::actor::Signature {
            name: "Test".into(),
            email: "test@example.com".into(),
            time: gix::date::Time::new(1_700_000_000 + n * 60, 0),
        };
        let id = self
            .repo
            .write_object(&gix::objs::Commit {
                tree: self.write_tree(""),
                parents: parents.iter().copied().collect(),
                author: who.clone(),
                committer: who,
                encoding: None,
                message: format!("{message}\n").into(),
                extra_headers: Vec::new(),
            })
            .unwrap()
            .detach();
        self.set_ref(branch, id);
        id
    }

    fn commit(&self, files: &[(&str, &str)], message: &str) -> gix::ObjectId {
        let parents: Vec<gix::ObjectId> = self
            .repo
            .head_id()
            .ok()
            .map(|id| id.detach())
            .into_iter()
            .collect();
        self.commit_on(&self.head(), &parents, files, message)
    }

    fn head(&self) -> String {
        self.repo
            .head_name()
            .unwrap()
            .unwrap()
            .as_bstr()
            .to_string()
    }

    fn refs(&self) -> Refs {
        let head = self
            .repo
            .head_name()
            .unwrap()
            .map(|n| n.as_bstr().to_vec());
        let platform = self.repo.references().unwrap();
        let read = |iter: gix::reference::iter::Iter<'_, '_>| -> Vec<RefRead> {
            iter.map(|r| {
                let mut r = r.unwrap();
                RefRead {
                    result: Ok(FoundRef {
                        target: Ok(to_id(&r.peel_to_id().unwrap())),
                        name: r.name().as_bstr().to_vec(),
                    }),
                }
            })
            .collect()
        };
        let branches = read(platform.local_branches().unwrap());
        let tags = read(platform.tags().unwrap());
        list_refs(Ok(head), Ok(branches), Ok(tags)).unwrap()
    }

    fn ref_state(&self) -> Vec<RefTarget> {
        let reads = self
            .repo
            .references()
            .unwrap()
            .all()
            .unwrap()
            .map(|r| {
                let r = r.unwrap();
                RawRefRead {
                    result: Ok(RawRef {
                        name: r.name().as_bstr().to_vec(),
                        target: r.target().try_id().map(to_id),
                    }),
                }
            })
            .collect();
        ref_state(Ok(reads)).unwrap()
    }

    fn rev(&self, rev: &str) -> RevRead {
        let Ok(id) = self.repo.rev_parse_single(rev.as_bytes().as_bstr()) else {
            return RevRead::Unknown;
        };
        match id.object().unwrap().peel_to_commit() {
            Err(_) => RevRead::NoCommit,
            Ok(commit) => RevRead::Commit(to_id(&commit.id)),
        }
    }

    fn entry(&self, commit: ObjectId, path: &str) -> Result<Option<FoundEntry>, String> {
        Ok(self
            .repo
            .find_commit(from_id(commit))
            .unwrap()
            .tree()
            .unwrap()
            .lookup_entry_by_path(path)
            .unwrap()
            .map(|e| FoundEntry {
                mode: e.mode().value(),
                id: to_id(e.oid()),
            }))
    }

    fn list(&self, mut listing: ReadTree) -> Result<Vec<TreeEntry>, AppError> {
        loop {
            listing = match listing.need() {
                TreeNeed::Root(commit) => {
                    let tree = self.repo.find_commit(from_id(commit)).unwrap().tree().unwrap();
                    listing.on_root(Ok(tree.data.clone()))
                }
                TreeNeed::Entry { commit, path } => {
                    let found = self.entry(commit, &path);
                    listing.on_entry(found)
                }
                TreeNeed::Subtree(id) => {
                    let tree = self.repo.find_tree(from_id(id)).unwrap();
                    listing.on_subtree(Ok(tree.data.clone()))
                }
                TreeNeed::Size(id) => {
                    let header = self.repo.try_find_header(from_id(id)).unwrap();
                    listing.on_size(Ok(header.map(|h| h.size())))
                }
                TreeNeed::Nothing => return listing.finish(),
            };
        }
    }

    fn tree(&self, path: &str, rev: Option<&str>) -> Result<Vec<TreeEntry>, AppError> {
        let rev = RevQuery {
            rev: rev.map(str::to_owned),
        }
        .rev();
        self.list(api::tree(&rev, self.rev(&rev), path)?)
    }

    fn file(
        &self,
        path: &str,
        rev: Option<&str>,
        if_none_match: Option<&str>,
    ) -> Result<FileResponse, AppError> {
        let rev = RevQuery {
            rev: rev.map(str::to_owned),
        }
        .rev();
        let tag = if_none_match.map(|tag| tag.as_bytes().to_vec());
        let mut request = api::file(&rev, self.rev(&rev), path.to_owned(), tag);
        loop {
            request = match request.need() {
                FileNeed::Entry { commit, path } => {
                    let found = self.entry(commit, &path);
                    request.on_entry(found)
                }
                FileNeed::Blob(id) => {
                    request.on_blob(match self.repo.try_find_object(from_id(id)).unwrap() {
                        None => BlobRead::Missing,
                        Some(object) => match object.try_into_blob() {
                            Err(e) => BlobRead::NoBlob(e.to_string()),
                            Ok(blob) => BlobRead::Data(blob.detach().data),
                        },
                    })
                }
                FileNeed::Nothing => return request.finish(),
            };
        }
    }

    fn data(&self, path: &str, rev: Option<&str>) -> Vec<u8> {
        match self.file(path, rev, None).unwrap() {
            FileResponse::Content { data, .. } => data,
            FileResponse::NotModified { .. } => panic!("not modified"),
        }
    }

    fn history(&self, request: &LogRequest) -> (Vec<CommitInfo>, usize) {
        let mut lookups = 0;
        let mut walk = None;
        let mut log = api::history(request, self.rev(&request.rev)).unwrap();
        loop {
            log = match log.need() {
                LogNeed::Walk(start) => {
                    walk = Some(
                        self.repo
                            .rev_walk([from_id(start)])
                            .sorting(gix::revision::walk::Sorting::ByCommitTime(
                                Default::default(),
                            ))
                            .all()
                            .unwrap(),
                    );
                    log.on_walk(Ok(()))
                }
                LogNeed::Next => {
                    let next = walk.as_mut().unwrap().next().map(|info| {
                        let info = info.unwrap();
                        Walked {
                            id: to_id(&info.id),
                            parents: info.parent_ids.iter().map(|p| to_id(p)).collect(),
                        }
                    });
                    log.on_next(Ok(next))
                }
                LogNeed::Entry { commit, path } => {
                    lookups += 1;
                    let found = self.entry(commit, &path);
                    log.on_entry(found)
                }
                LogNeed::Data(id) => {
                    let commit = self.repo.find_commit(from_id(id)).unwrap();
                    log.on_data(Ok(commit.data.clone()))
                }
                LogNeed::Nothing => return (log.finish().unwrap(), lookups),
            };
        }
    }

    fn commits(&self, path: Option<&str>, limit: Option<usize>) -> Vec<CommitInfo> {
        let request = api::commits(LogQuery {
            rev: None,
            path: path.map(str::to_owned),
            limit,
        })
        .unwrap();
        self.history(&request).0
    }
}

const URL: &str = "file:///srv/upstream";

fn mirror_config(url: &str) -> MirrorConfig {
    MirrorConfig {
        url: url.to_owned(),
        cache_dir: b"/srv/cache".to_vec(),
        token: None,
        token_user: "git".to_owned(),
        ttl: 30_000_000_000,
        git_timeout: 600_000_000_000,
        blobless: false,
    }
}

/// A mirror of [`URL`] whose cache holds a repository.
fn mirror_with_repo() -> Mirror {
    let read = RepoRead::Repo {
        origin: Some(URL.as_bytes().to_vec()),
        real_origin: None,
        real_url: None,
    };
    Mirror::open(mirror_config(URL), CacheRead::Filled(read)).unwrap()
}

fn at(seconds: i128) -> Timestamp {
    Timestamp {
        nanos: seconds * 1_000_000_000,
    }
}

fn texts(args: &[Arg]) -> Vec<&str> {
    args.iter()
        .map(|arg| match arg {
            Arg::Text(text) => text.as_str(),
            Arg::CacheDir => "<cache dir>",
        })
        .collect()
}

fn names(refs: &[RefInfo]) -> Vec<&str> {
    refs.iter().map(|r| r.name.as_str()).collect()
}

fn ids(commits: &[CommitInfo]) -> Vec<String> {
    commits.iter().map(|c| c.id.clone()).collect()
}

fn status<T>(result: Result<T, AppError>) -> u16 {
    match result {
        Ok(_) => 200,
        Err(e) => e.into_response().status,
    }
}

#[test]
fn clones_into_empty_cache_and_lists_refs() {
    let f = Fixture::new();
    let mut mirror = match Mirror::open(mirror_config(URL), CacheRead::Missing) {
        Ok(mirror) => mirror,
        Err(e) => panic!("{}", e.message()),
    };
    assert!(!mirror.repo());
    let commands = f.sync(&mut mirror, at(10), |f| {
        let first = f.commit(&[("README.md", "hello\n")], "first");
        let tag = f
            .repo
            .write_object(&gix::objs::Tag {
                target: first,
                target_kind: gix::objs::Kind::Commit,
                name: "v1".into(),
                tagger: None,
                message: "release\n".into(),
                pgp_signature: None,
            })
            .unwrap()
            .detach();
        f.set_ref("refs/tags/v1", tag);
        f.set_ref("refs/heads/feature", first);
        Ok(String::new())
    });
    assert_eq!(commands, ["clone", "commit-graph"]);
    assert!(mirror.repo());
    let first = f.repo.head_id().unwrap().detach();

    let refs = f.refs();
    assert_eq!(refs.head.as_deref(), Some("main"));
    assert_eq!(names(&refs.branches), ["feature", "main"]);
    assert_eq!(names(&refs.tags), ["v1"]);
    // Annotated tag is peeled to the commit it points at.
    assert_eq!(refs.tags[0].target, first.to_string());
}

#[test]
fn new_commits_change_the_ref_state() {
    let f = Fixture::new();
    f.commit(&[("a.txt", "1")], "first");
    let before = f.ref_state();
    assert!(same_refs(&before, &f.ref_state()));
    let second = f.commit(&[("a.txt", "2")], "second");
    let after = f.ref_state();
    assert!(!same_refs(&before, &after));
    assert_eq!(after.len(), 1);
    assert_eq!(after[0].name, "refs/heads/main");
    assert_eq!(after[0].target, Some(to_id(&second)));
    assert_eq!(f.refs().branches[0].target, second.to_string());
    assert_eq!(f.data("a.txt", None), b"2");
}

#[test]
fn files_resolve_any_ref() {
    let f = Fixture::new();
    let old = f.commit(&[("src/lib.rs", "old")], "first");
    f.commit(&[("src/lib.rs", "new")], "second");

    assert_eq!(f.data("src/lib.rs", None), b"new");
    assert_eq!(f.data("src/lib.rs", Some(&old.to_string())), b"old");
    assert_eq!(f.data("src/lib.rs", Some("HEAD~1")), b"old");

    assert_eq!(status(f.file("missing.rs", None, None)), 404);
    assert_eq!(status(f.file("src", None, None)), 400);
    assert_eq!(status(f.file("src/lib.rs", Some("nope"), None)), 404);
}

#[test]
fn file_etag_is_blob_id_and_honours_if_none_match() {
    let f = Fixture::new();
    f.commit(&[("data.json", "{}")], "first");
    let blob = f
        .repo
        .rev_parse_single("HEAD:data.json")
        .unwrap()
        .detach()
        .to_string();

    let tag = match f.file("data.json", None, None).unwrap() {
        FileResponse::Content {
            etag,
            content_type,
            data,
        } => {
            assert_eq!(content_type, "application/json");
            assert_eq!(data, b"{}");
            etag
        }
        FileResponse::NotModified { .. } => panic!("not modified"),
    };
    assert_eq!(tag, format!("\"{blob}\""));

    match f.file("data.json", None, Some(&tag)).unwrap() {
        FileResponse::NotModified { etag } => assert_eq!(etag, tag),
        FileResponse::Content { .. } => panic!("modified"),
    }
    assert!(matches!(
        f.file("data.json", None, Some("\"other\"")).unwrap(),
        FileResponse::Content { .. }
    ));
}

#[test]
fn tree_lists_entries_with_kinds() {
    let f = Fixture::new();
    f.commit(
        &[("README.md", "hello"), ("src/main.rs", "fn main() {}")],
        "first",
    );
    f.files.borrow_mut().insert(
        "link".to_owned(),
        (gix::objs::tree::EntryKind::Link, b"README.md".to_vec()),
    );
    f.commit(&[], "symlink");

    let root = f.list(api::tree_root("HEAD", f.rev("HEAD")).unwrap()).unwrap();
    let kinds: Vec<(&str, Kind)> = root.iter().map(|e| (e.name.as_str(), e.kind)).collect();
    assert_eq!(
        kinds,
        [
            ("README.md", Kind::File),
            ("link", Kind::Symlink),
            ("src", Kind::Dir)
        ]
    );
    assert_eq!(root[0].size, Some(5));
    assert_eq!(root[0].mode, "100644");
    assert_eq!(root[1].mode, "120000");
    assert_eq!(root[2].mode, "40000");
    assert!(root[2].size.is_none());

    let src = f.tree("src/", None).unwrap();
    let src_names: Vec<&str> = src.iter().map(|e| e.name.as_str()).collect();
    assert_eq!(src_names, ["main.rs"]);
    assert_eq!(status(f.tree("README.md", None)), 400);
    assert_eq!(status(f.tree("nope", None)), 404);
}

#[test]
fn commits_filter_by_path_and_limit() {
    let f = Fixture::new();
    let c1 = f.commit(&[("a.txt", "1"), ("b.txt", "1")], "one").to_string();
    let c2 = f.commit(&[("b.txt", "2")], "two").to_string();
    let c3 = f.commit(&[("a.txt", "3")], "three").to_string();

    let all = f.commits(None, None);
    assert_eq!(ids(&all), [c3.as_str(), c2.as_str(), c1.as_str()]);
    assert_eq!(all[0].message, "three\n");
    assert_eq!(all[0].parents[0], c2);
    assert_eq!(all[0].author.name, "Test");
    assert_eq!(all[0].author.email, "test@example.com");
    assert_eq!(all[0].committer.time, "2023-11-14T22:16:20+00:00");

    assert_eq!(ids(&f.commits(Some("a.txt"), None)), [c3.as_str(), c1.as_str()]);
    assert_eq!(ids(&f.commits(Some("b.txt"), None)), [c2.as_str(), c1.as_str()]);
    assert_eq!(ids(&f.commits(None, Some(1))), [c3.as_str()]);
    let refused = api::commits(LogQuery {
        rev: None,
        path: None,
        limit: Some(0),
    });
    assert_eq!(status(refused), 400);
}

#[test]
fn commits_path_filter_skips_merge_that_took_one_side() {
    let f = Fixture::new();
    let base = f.commit(&[("a.txt", "1"), ("b.txt", "1")], "base");
    let side = f.commit_on("refs/heads/side", &[base], &[("a.txt", "2")], "side");
    let main = f.commit_on(
        &f.head(),
        &[base],
        &[("a.txt", "1"), ("b.txt", "2")],
        "main",
    );
    let merge = f.commit_on(&f.head(), &[main, side], &[("a.txt", "2")], "merge");

    let log = f.commits(Some("a.txt"), None);
    assert!(!ids(&log).contains(&merge.to_string()));
    assert_eq!(ids(&log), [side.to_string(), base.to_string()]);
    assert_eq!(
        ids(&f.commits(None, None)),
        [
            merge.to_string(),
            main.to_string(),
            side.to_string(),
            base.to_string()
        ]
    );
}

#[test]
fn each_commit_is_looked_up_once() {
    let f = Fixture::new();
    for i in 0..5 {
        f.commit(&[("a.txt", &format!("{}", i / 2))], "step");
    }
    let request = LogRequest {
        rev: "HEAD".to_owned(),
        path: Some("/a.txt/".to_owned()),
        limit: 50,
    };
    let (log, lookups) = f.history(&request);
    assert_eq!(log.len(), 3);
    assert_eq!(lookups, 5);
}

#[test]
fn lower_limit_is_the_beginning_of_the_log() {
    let f = Fixture::new();
    for i in 0..6 {
        f.commit(&[("a.txt", &format!("{i}"))], "step");
    }
    let all = ids(&f.commits(Some("a.txt"), None));
    assert_eq!(all.len(), 6);
    for limit in 1..7 {
        assert_eq!(ids(&f.commits(Some("a.txt"), Some(limit))), all[..limit]);
    }
}

#[test]
fn existing_cache_fetches_new_commits_and_prunes_deleted_refs() {
    let f = Fixture::new();
    let first = f.commit(&[("a.txt", "1")], "first");
    f.set_ref("refs/heads/gone", first);
    f.set_ref("refs/tags/gone-tag", first);

    let mut mirror = mirror_with_repo();
    let commands = f.sync(&mut mirror, at(10), |f| {
        f.commit(&[("a.txt", "2")], "second");
        f.delete_ref("refs/heads/gone");
        f.delete_ref("refs/tags/gone-tag");
        Ok(String::new())
    });
    assert_eq!(commands, ["fetch", "ls-remote"]);
    assert_eq!(mirror.status().error, None);
    assert_eq!(mirror.status().last_success, Some(at(10)));

    let second = f.repo.head_id().unwrap().to_string();
    let refs = f.refs();
    assert_eq!(names(&refs.branches), ["main"]);
    assert_eq!(refs.branches[0].target, second);
    assert!(refs.tags.is_empty());
    assert_eq!(f.data("a.txt", None), b"2");

    // Nothing new: HEAD was compared already, so the upstream is not asked for it again.
    assert!(matches!(
        mirror.ensure_fresh(true, at(11)),
        Freshness::Wait {
            ticket: 2,
            wake: true
        }
    ));
    let commands = f.sync(&mut mirror, at(12), |_| Ok(String::new()));
    assert_eq!(commands, ["fetch"]);
}

#[test]
fn unreachable_remote_serves_stale_cache() {
    let f = Fixture::new();
    f.commit(&[("a.txt", "cached")], "first");
    let mut mirror = mirror_with_repo();
    let commands = f.sync(&mut mirror, at(10), |_| {
        Err(SyncError::Git("git fetch: unreachable".to_owned()))
    });
    assert_eq!(commands, ["fetch"]);
    assert!(mirror.repo());
    let status = mirror.status();
    assert_eq!(status.completed, 1);
    assert_eq!(status.error.as_deref(), Some("git fetch: unreachable"));
    assert_eq!(status.last_attempt, Some(at(10)));
    assert_eq!(status.last_success, None);
    assert_eq!(f.data("a.txt", None), b"cached");
    // The failed attempt counts as fresh too.
    assert!(matches!(
        mirror.ensure_fresh(false, at(39)),
        Freshness::Cached(_)
    ));
    assert!(matches!(
        mirror.ensure_fresh(false, at(40)),
        Freshness::Wait { ticket: 2, .. }
    ));
}

#[test]
fn non_repo_cache_dir_fails_without_touching_it() {
    let cache = TempDir::new().unwrap();
    let stray = TempDir::new_in(cache.path()).unwrap();
    let cause = gix::open(cache.path()).unwrap_err().to_string();
    let err = match Mirror::open(
        mirror_config(URL),
        CacheRead::Filled(RepoRead::NoRepo(cause.clone())),
    ) {
        Ok(_) => panic!("opened"),
        Err(e) => e,
    };
    assert!(matches!(err, SyncError::NotARepo { .. }));
    assert_eq!(
        err.message(),
        format!("cache dir /srv/cache is not empty and not a git repository: {cause}")
    );
    assert!(stray.path().exists());
}

#[test]
fn cache_for_other_url_is_rejected() {
    assert!(mirror_with_repo().repo());
    let read = RepoRead::Repo {
        origin: Some(URL.as_bytes().to_vec()),
        real_origin: None,
        real_url: None,
    };
    let opened = Mirror::open(
        mirror_config("https://example.com/other.git"),
        CacheRead::Filled(read),
    );
    let err = match opened {
        Ok(_) => panic!("opened"),
        Err(e) => e,
    };
    assert!(matches!(err, SyncError::UrlMismatch { .. }));
    assert_eq!(
        err.message(),
        "cache dir remote \"origin\" is \"file:///srv/upstream\", expected \"https://example.com/other.git\""
    );
}

#[test]
fn commits_path_filter_lists_change_of_mode() {
    let f = Fixture::new();
    let c1 = f.commit(&[("run.sh", "x")], "first");
    f.files.borrow_mut().insert(
        "run.sh".to_owned(),
        (
            gix::objs::tree::EntryKind::BlobExecutable,
            b"x".to_vec(),
        ),
    );
    let c2 = f.commit(&[], "chmod +x");
    let c3 = f.commit(&[("other", "y")], "unrelated");

    assert_eq!(
        ids(&f.commits(Some("run.sh"), Some(50))),
        [c2.to_string(), c1.to_string()]
    );
    assert_eq!(ids(&f.commits(Some("other"), None)), [c3.to_string()]);
}

#[test]
fn listed_paths_are_found_as_listed() {
    let f = Fixture::new();
    f.files.borrow_mut().insert(
        "a/link".to_owned(),
        (gix::objs::tree::EntryKind::Link, b"b".to_vec()),
    );
    f.commit(&[("a/b", "1"), ("a/c/d", "2")], "first");
    for entry in f.tree("/a/", None).unwrap() {
        let path = format!("a/{}", entry.name);
        let found = f.file(&path, None, None);
        match entry.kind {
            Kind::File | Kind::Symlink => match found.unwrap() {
                FileResponse::Content { etag, .. } => {
                    assert_eq!(etag, format!("\"{}\"", entry.oid));
                }
                FileResponse::NotModified { .. } => panic!("not modified"),
            },
            Kind::Dir | Kind::Submodule => {
                assert_eq!(found.unwrap_err().message(), format!("not a file: {path}"));
            }
        }
    }
}

#[test]
fn full_id_names_its_commit() {
    let f = Fixture::new();
    let first = f.commit(&[("a", "1")], "first");
    f.commit(&[("a", "2")], "second");
    let rev = "HEAD~1";
    let commit = resolve_commit(rev, f.rev(rev)).unwrap();
    assert_eq!(commit, to_id(&first));
    let full = commit.to_hex();
    assert_eq!(resolve_commit(&full, f.rev(&full)).unwrap(), commit);
}
