//! Answers to requests, made from what was read.
use git_serve::api::{
    self, after_attempt, after_fetch, commits, etag, file_of_type, history, no_repository, tree,
    Attempt, FileNeed, FileResponse, LogQuery, LogRequest, RevQuery,
};
use git_serve::decode::{
    commit_message, read_entries, short_name_of, to_text, EntryRead, RawEntry, RawSignature,
};
use git_serve::error::AppError;
use git_serve::log::{log, Log, LogNeed, Walked};
use git_serve::memo::Memo;
use git_serve::mirror::SyncError;
use git_serve::object_id::{same_id, ObjectId};
use git_serve::repo::{
    commit_info, describe_commit, describe_name, describe_ref, entry_kind, find_blob, list_refs,
    normalize, read_blob, resolve_commit, same_entry, show_time, signature, BlobRead, EntryKind, FoundEntry, FoundRef, Kind, RefRead,
    RevRead,
};
use git_serve::status::Status;
use git_serve::text::{push_decimal, same_bytes, same_text, trim, trim_slashes};
use git_serve::tree::{read_tree, ReadTree, TreeNeed};

fn id(low: u32) -> ObjectId {
    ObjectId { high: 0, low }
}

fn blob(low: u32) -> FoundEntry {
    FoundEntry {
        mode: 0o100644,
        id: id(low),
    }
}

fn message<T>(result: Result<T, AppError>) -> String {
    match result {
        Ok(_) => panic!("no error"),
        Err(e) => e.message(),
    }
}

/// The bytes of a tree object with entries of this mode, name and id.
fn tree_data(entries: &[(&str, &[u8], ObjectId)]) -> Vec<u8> {
    let mut data = Vec::new();
    for (mode, name, id) in entries {
        data.extend(mode.as_bytes());
        data.push(b' ');
        data.extend(*name);
        data.push(0);
        data.extend(id.high.to_be_bytes());
        data.extend(id.low.to_be_bytes());
    }
    data
}

fn commit_data(author: &str, committer: &str, message: &str) -> Vec<u8> {
    format!(
        "tree {}\nauthor {author}\ncommitter {committer}\n\n{message}",
        id(1).to_hex()
    )
    .into_bytes()
}

#[test]
fn ids_in_hex() {
    let id = ObjectId {
        high: 0x0123456789abcdef_fedcba9876543210,
        low: 0xdeadbeef,
    };
    assert_eq!(id.to_hex(), "0123456789abcdeffedcba9876543210deadbeef");
    assert!(same_id(&Some(id), &Some(id)));
    assert!(!same_id(&Some(id), &None));
    assert!(same_id(&None, &None));
}

#[test]
fn responses_to_errors() {
    let response = AppError::RefNotFound("x".to_owned()).into_response();
    assert_eq!(response.status, 404);
    assert_eq!(response.error, "ref not found: x");
    assert_eq!(response.retry_after, None);
    let response = AppError::PathNotFound("x".to_owned()).into_response();
    assert_eq!(response.status, 404);
    assert_eq!(response.error, "path not found: x");
    let response = AppError::BadRequest("bad".to_owned()).into_response();
    assert_eq!(response.status, 400);
    assert_eq!(response.error, "bad");
    let response = AppError::Unavailable("later".to_owned()).into_response();
    assert_eq!(response.status, 503);
    assert_eq!(response.retry_after, Some(5));
    assert_eq!(response.error, "later");
    let response = AppError::internal("secret".to_owned()).into_response();
    assert_eq!(response.status, 500);
    assert_eq!(response.error, "internal error");
    let missing = AppError::MissingObjects(vec![id(1), id(2)]);
    let response = missing.into_response();
    assert_eq!(response.status, 500);
    assert_eq!(response.error, "internal error");
    assert_eq!(
        missing.message(),
        "objects not in the cache: [Sha1(0000000000000000000000000000000000000001), Sha1(0000000000000000000000000000000000000002)]"
    );
    assert_eq!(
        AppError::MissingObjects(Vec::new()).message(),
        "objects not in the cache: []"
    );
}

#[test]
fn paths_lose_their_outer_slashes() {
    assert_eq!(normalize("/a/b//"), "a/b");
    assert_eq!(normalize(normalize("//a")), "a");
    assert_eq!(normalize("///"), "");
    assert_eq!(normalize(""), "");
    assert_eq!(trim_slashes("a//b"), "a//b");
    assert_eq!(normalize("/\u{e9}/"), "\u{e9}");
}

#[test]
fn texts_and_numbers() {
    assert_eq!(trim("\t a b\u{3000}\n"), "a b");
    assert_eq!(trim("\u{200b}x"), "\u{200b}x");
    let mut out = "n=".to_owned();
    push_decimal(&mut out, u64::MAX);
    push_decimal(&mut out, 0);
    assert_eq!(out, "n=184467440737095516150");
    assert!(same_bytes(b"ab", b"ab"));
    assert!(!same_bytes(b"ab", b"ac"));
    assert!(!same_bytes(b"ab", b"abc"));
    assert!(same_text(&Some("a".to_owned()), &Some("a".to_owned())));
    assert!(!same_text(&Some("a".to_owned()), &None));
}

#[test]
fn lookups_are_remembered() {
    let mut memo = Memo::new();
    assert_eq!(memo.get(id(1)), None);
    memo.insert(id(1), Some(blob(7)));
    memo.insert(id(2), None);
    memo.insert(ObjectId { high: 1, low: 1 }, Some(blob(9)));
    assert_eq!(memo.get(id(1)), Some(Some(blob(7))));
    assert_eq!(memo.get(id(2)), Some(None));
    assert_eq!(memo.get(ObjectId { high: 1, low: 1 }), Some(Some(blob(9))));
    assert_eq!(memo.get(id(3)), None);
    memo.insert(id(1), None);
    assert_eq!(memo.get(id(1)), Some(None));
}

#[test]
fn kinds_of_entries() {
    for (mode, kind, octal, public) in [
        (0o040000, EntryKind::Tree, "40000", Kind::Dir),
        (0o100644, EntryKind::Blob, "100644", Kind::File),
        (0o100664, EntryKind::Blob, "100644", Kind::File),
        (0o100755, EntryKind::BlobExecutable, "100755", Kind::File),
        (0o120000, EntryKind::Link, "120000", Kind::Symlink),
        (0o160000, EntryKind::Commit, "160000", Kind::Submodule),
    ] {
        assert_eq!(EntryKind::from_mode(mode), kind);
        assert_eq!(kind.as_octal_str(), octal);
        assert_eq!(entry_kind(kind), public);
        assert_eq!(
            kind.is_blob_or_symlink(),
            public == Kind::File || public == Kind::Symlink
        );
    }
}

#[test]
fn revisions_name_commits() {
    assert_eq!(resolve_commit("x", RevRead::Commit(id(1))).unwrap(), id(1));
    assert_eq!(
        message(resolve_commit("x", RevRead::Unknown)),
        "ref not found: x"
    );
    assert_eq!(
        message(resolve_commit("x", RevRead::NoCommit)),
        "ref not found: x"
    );
    assert_eq!(
        message(resolve_commit("x", RevRead::Unreadable("e".to_owned()))),
        "internal error: e"
    );
    assert_eq!(RevQuery { rev: None }.rev(), "HEAD");
    let named = RevQuery {
        rev: Some("v1".to_owned()),
    };
    assert_eq!(named.rev(), "v1");
}

#[test]
fn refs_that_cannot_be_read() {
    let found = |name: &[u8]| RefRead {
        result: Ok(FoundRef {
            name: name.to_vec(),
            target: Ok(id(1)),
        }),
    };
    let refs = list_refs(
        Ok(None),
        Ok(vec![found(b"refs/heads/a/b"), found(b"refs/heads/c\xff")]),
        Ok(vec![found(b"refs/tags/v1")]),
    )
    .unwrap();
    assert_eq!(refs.head, None);
    assert_eq!(refs.branches[0].name, "a/b");
    assert_eq!(refs.branches[1].name, "c\u{fffd}");
    assert_eq!(
        refs.branches[0].target,
        "0000000000000000000000000000000000000001"
    );
    assert_eq!(refs.tags[0].name, "v1");
    assert_eq!(
        message(list_refs(Err("h".to_owned()), Err("b".to_owned()), Ok(Vec::new()))),
        "internal error: h"
    );
    assert_eq!(
        message(list_refs(Ok(None), Err("b".to_owned()), Err("t".to_owned()))),
        "internal error: b"
    );
    assert_eq!(
        message(list_refs(Ok(None), Ok(Vec::new()), Err("t".to_owned()))),
        "internal error: t"
    );
    let unread = RefRead {
        result: Err("r".to_owned()),
    };
    assert_eq!(
        message(list_refs(Ok(None), Ok(vec![unread]), Ok(Vec::new()))),
        "internal error: r"
    );
    let dangling = RefRead {
        result: Ok(FoundRef {
            name: b"refs/heads/a".to_vec(),
            target: Err("p".to_owned()),
        }),
    };
    assert_eq!(
        message(list_refs(Ok(None), Ok(vec![dangling]), Ok(Vec::new()))),
        "internal error: p"
    );
    let invalid = list_refs(Ok(Some(b"refs/heads/..".to_vec())), Ok(Vec::new()), Ok(Vec::new()));
    assert_eq!(invalid.unwrap_err().into_response().status, 500);
}

#[test]
fn blobs_are_found_and_read() {
    let entry = |mode| {
        Ok(Some(FoundEntry {
            mode,
            id: id(3),
        }))
    };
    assert_eq!(find_blob("/a/", entry(0o100644)).unwrap(), id(3));
    assert_eq!(find_blob("a", entry(0o120000)).unwrap(), id(3));
    assert_eq!(message(find_blob("/a/", entry(0o040000))), "not a file: a");
    assert_eq!(message(find_blob("a", entry(0o160000))), "not a file: a");
    assert_eq!(message(find_blob("/a/", Ok(None))), "path not found: a");
    assert_eq!(
        message(find_blob("a", Err("e".to_owned()))),
        "internal error: e"
    );
    assert_eq!(
        read_blob(id(3), BlobRead::Data(b"x".to_vec())).unwrap(),
        b"x"
    );
    assert!(matches!(
        read_blob(id(3), BlobRead::Missing),
        Err(AppError::MissingObjects(ids)) if ids == [id(3)]
    ));
    assert_eq!(
        message(read_blob(id(3), BlobRead::Failed("e".to_owned()))),
        "internal error: e"
    );
    assert_eq!(
        message(read_blob(id(3), BlobRead::NoBlob("e".to_owned()))),
        "internal error: e"
    );
}

#[test]
fn commits_are_described() {
    let data = commit_data(
        "A U Thor <a@example.com> 1700000000 +0200",
        "C O Mitter <c@example.com> +-+",
        "subject\n\nbody\n",
    );
    let info = commit_info(id(1), &vec![id(2), id(3)], &data).unwrap();
    assert_eq!(info.id, id(1).to_hex());
    assert_eq!(info.parents, [id(2).to_hex(), id(3).to_hex()]);
    assert_eq!(info.author.name, "A U Thor");
    assert_eq!(info.author.email, "a@example.com");
    assert_eq!(info.author.time, "2023-11-15T00:13:20+02:00");
    // A time that cannot be parsed is shown as it stands.
    assert_eq!(info.committer.name, "C O Mitter");
    assert_eq!(info.committer.time, "+-+");
    assert_eq!(info.message, "subject\n\nbody\n");
    let broken = commit_info(id(1), &Vec::new(), b"nonsense");
    assert_eq!(broken.unwrap_err().into_response().status, 500);
}

#[test]
fn commits_described_from_their_parts() {
    let who = || {
        Ok(RawSignature {
            name: b"N\xff".to_vec(),
            email: b"e".to_vec(),
            time: "0 +0000".to_owned(),
        })
    };
    let info = describe_commit(id(1), &Vec::new(), who(), who(), b"m").unwrap();
    assert_eq!(info.author.name, "N\u{fffd}");
    assert_eq!(info.author.time, "1970-01-01T00:00:00+00:00");
    assert!(info.parents.is_empty());
    let failed = describe_commit(id(1), &Vec::new(), Err("a".to_owned()), Err("c".to_owned()), b"");
    assert_eq!(message(failed), "internal error: a");
    let failed = describe_commit(id(1), &Vec::new(), who(), Err("c".to_owned()), b"");
    assert_eq!(message(failed), "internal error: c");
    assert_eq!(show_time("raw".to_owned(), None), "raw");
    assert_eq!(
        show_time("raw".to_owned(), Some((0, 3600))),
        "1970-01-01T01:00:00+01:00"
    );
    let shown = signature(who().unwrap());
    assert_eq!(shown.email, "e");
}

#[test]
fn messages_follow_the_first_empty_line() {
    assert_eq!(commit_message(b"a\n\nb\n\nc"), b"b\n\nc");
    assert_eq!(commit_message(b"\n\n"), b"");
    assert_eq!(commit_message(b"a\nb\n"), b"");
    assert_eq!(commit_message(b""), b"");
    assert_eq!(commit_message(b"\n\n\nx"), b"\nx");
}

#[test]
fn listing_reports_all_missing_objects_at_once() {
    let data = tree_data(&[
        ("100644", b"a", id(1)),
        ("40000", b"b", id(2)),
        ("120000", b"c", id(3)),
        ("100755", b"d", id(4)),
        ("160000", b"e", id(5)),
    ]);
    let mut listing = read_tree(id(9), "/").on_root(Ok(data));
    let mut asked = Vec::new();
    while let TreeNeed::Size(size_of) = listing.need() {
        asked.push(size_of);
        let size = if size_of == id(3) { Some(7) } else { None };
        listing = listing.on_size(Ok(size));
    }
    assert_eq!(asked, [id(1), id(3), id(4)]);
    match listing.finish() {
        Err(AppError::MissingObjects(ids)) => assert_eq!(ids, [id(1), id(4)]),
        other => panic!("{other:?}"),
    }
}

#[test]
fn listing_of_a_tree_object() {
    let data = tree_data(&[
        ("100644", b"a\xff", id(1)),
        ("40000", b"b", id(2)),
        ("160000", b"e", id(5)),
    ]);
    let listing = read_tree(id(9), "").on_root(Ok(data)).on_size(Ok(Some(3)));
    let rows = listing.finish().unwrap();
    assert_eq!(rows.len(), 3);
    assert_eq!(rows[0].name, "a\u{fffd}");
    assert_eq!(rows[0].size, Some(3));
    assert_eq!(rows[0].oid, id(1).to_hex());
    assert_eq!(rows[1].kind, Kind::Dir);
    assert_eq!(rows[1].size, None);
    assert_eq!(rows[2].kind, Kind::Submodule);
    assert_eq!(rows[2].mode, "160000");
    assert!(read_tree(id(9), "").on_root(Ok(Vec::new())).finish().unwrap().is_empty());
}

#[test]
fn listing_of_a_subdirectory() {
    let listing = read_tree(id(9), "/a/b/");
    assert!(matches!(listing.need(), TreeNeed::Root(commit) if commit == id(9)));
    let listing = listing.on_root(Ok(Vec::new()));
    match listing.need() {
        TreeNeed::Entry { commit, path } => {
            assert_eq!(commit, id(9));
            assert_eq!(path, "a/b");
        }
        other => panic!("{other:?}"),
    }
    let listing = listing.on_entry(Ok(Some(FoundEntry {
        mode: 0o040000,
        id: id(4),
    })));
    assert!(matches!(listing.need(), TreeNeed::Subtree(tree) if tree == id(4)));
    let rows = listing
        .on_subtree(Ok(tree_data(&[("40000", b"c", id(6))])))
        .finish()
        .unwrap();
    assert_eq!(rows[0].name, "c");
}

#[test]
fn listings_that_fail() {
    let lookup = || read_tree(id(9), "a").on_root(Ok(Vec::new()));
    let fail = |listing: ReadTree| message(listing.finish());
    assert_eq!(
        fail(read_tree(id(9), "a").on_root(Err("r".to_owned()))),
        "internal error: r"
    );
    assert_eq!(
        fail(lookup().on_entry(Err("l".to_owned()))),
        "internal error: l"
    );
    assert_eq!(fail(lookup().on_entry(Ok(None))), "path not found: a");
    let file = FoundEntry {
        mode: 0o100644,
        id: id(1),
    };
    assert_eq!(
        fail(lookup().on_entry(Ok(Some(file)))),
        "not a directory: a"
    );
    let dir = FoundEntry {
        mode: 0o040000,
        id: id(1),
    };
    assert_eq!(
        fail(lookup().on_entry(Ok(Some(dir))).on_subtree(Err("s".to_owned()))),
        "internal error: s"
    );
    let data = tree_data(&[("100644", b"a", id(1))]);
    assert_eq!(
        fail(read_tree(id(9), "").on_root(Ok(data)).on_size(Err("z".to_owned()))),
        "internal error: z"
    );
    let mut data = tree_data(&[("40000", b"a", id(1))]);
    data.extend(b"nonsense");
    let listing = read_tree(id(9), "").on_root(Ok(data));
    assert_eq!(listing.finish().unwrap_err().into_response().status, 500);
    let broken = ReadTree::of_entries(
        String::new(),
        vec![
            EntryRead {
                result: Ok(RawEntry {
                    mode: 0o040000,
                    name: b"a".to_vec(),
                    id: id(1),
                }),
            },
            EntryRead {
                result: Err("decode".to_owned()),
            },
        ],
    );
    assert_eq!(fail(broken), "internal error: decode");
}

#[test]
fn limits_of_a_log() {
    let query = |limit| LogQuery {
        rev: None,
        path: Some("p".to_owned()),
        limit,
    };
    let request = commits(query(None)).unwrap();
    assert_eq!(request.limit, 50);
    assert_eq!(request.rev, "HEAD");
    assert_eq!(request.path.as_deref(), Some("p"));
    assert_eq!(commits(query(Some(1))).unwrap().limit, 1);
    assert_eq!(commits(query(Some(500))).unwrap().limit, 500);
    for limit in [0, 501, usize::MAX] {
        let refused = commits(query(Some(limit)));
        assert_eq!(message(refused), "limit must be between 1 and 500");
    }
}

fn walked(low: u32, parents: &[u32]) -> Walked {
    Walked {
        id: id(low),
        parents: parents.iter().map(|p| id(*p)).collect(),
    }
}

fn some_commit() -> Vec<u8> {
    commit_data("a <a> 0 +0000", "c <c> 0 +0000", "m")
}

/// The commits that a log of `path` lists in this history, newest first: each commit has a number,
/// parents, and what it holds at the path.
fn listed(history: &[(u32, &[u32], Option<u32>)]) -> Vec<String> {
    let mut steps = history.iter();
    let mut log = log(id(99), Some("p"), 50);
    loop {
        log = match log.need() {
            LogNeed::Walk(start) => {
                assert_eq!(start, id(99));
                log.on_walk(Ok(()))
            }
            LogNeed::Next => log.on_next(Ok(steps.next().map(|(n, parents, _)| walked(*n, parents)))),
            LogNeed::Entry { commit, path } => {
                assert_eq!(path, "p");
                let found = history.iter().find(|(n, _, _)| id(*n) == commit).unwrap().2;
                log.on_entry(Ok(found.map(blob)))
            }
            LogNeed::Data(_) => log.on_data(Ok(some_commit())),
            LogNeed::Nothing => break,
        };
    }
    log.finish().unwrap().into_iter().map(|c| c.id).collect()
}

#[test]
fn log_lists_changes_of_the_path() {
    let hex = |n: u32| id(n).to_hex();
    // Added, unchanged, changed, removed.
    assert_eq!(
        listed(&[
            (4, &[3], None),
            (3, &[2], Some(8)),
            (2, &[1], Some(7)),
            (1, &[], Some(7)),
        ]),
        [hex(4), hex(3), hex(1)]
    );
    // A root commit without the path does not count.
    assert_eq!(
        listed(&[(2, &[1], Some(7)), (1, &[], None)]),
        [hex(2)]
    );
    // A merge counts only if it differs from every parent.
    assert_eq!(
        listed(&[
            (4, &[3, 2], Some(9)),
            (3, &[1], Some(8)),
            (2, &[1], Some(7)),
            (1, &[], None),
        ]),
        [hex(4), hex(3), hex(2)]
    );
    assert_eq!(
        listed(&[
            (4, &[3, 2], Some(7)),
            (3, &[1], Some(8)),
            (2, &[1], Some(7)),
            (1, &[], None),
        ]),
        [hex(3), hex(2)]
    );
}

#[test]
fn empty_path_restricts_nothing() {
    let started = log(id(1), Some("//"), 2).on_walk(Ok(()));
    let started = started.on_next(Ok(Some(walked(1, &[]))));
    assert!(matches!(started.need(), LogNeed::Data(commit) if commit == id(1)));
}

#[test]
fn log_ends_at_its_limit_or_with_the_walk() {
    assert!(log(id(1), None, 0).on_walk(Ok(())).finish().unwrap().is_empty());
    let one = log(id(1), None, 1)
        .on_walk(Ok(()))
        .on_next(Ok(Some(walked(1, &[]))))
        .on_data(Ok(some_commit()));
    assert!(matches!(one.need(), LogNeed::Nothing));
    assert_eq!(one.finish().unwrap().len(), 1);
    let none = log(id(1), None, 1).on_walk(Ok(())).on_next(Ok(None));
    assert!(none.finish().unwrap().is_empty());
}

#[test]
fn logs_that_fail() {
    let fail = |log: Log| message(log.finish());
    let start = || log(id(1), Some("p"), 5);
    assert_eq!(
        fail(start().on_walk(Err("w".to_owned()))),
        "internal error: w"
    );
    let next = || start().on_walk(Ok(()));
    assert_eq!(
        fail(next().on_next(Err("n".to_owned()))),
        "internal error: n"
    );
    let here = || next().on_next(Ok(Some(walked(1, &[2]))));
    assert_eq!(
        fail(here().on_entry(Err("h".to_owned()))),
        "internal error: h"
    );
    let parent = || here().on_entry(Ok(Some(blob(7))));
    assert_eq!(
        fail(parent().on_entry(Err("p".to_owned()))),
        "internal error: p"
    );
    let load = || parent().on_entry(Ok(None));
    assert_eq!(
        fail(load().on_data(Err("d".to_owned()))),
        "internal error: d"
    );
    assert!(load().on_data(Ok(b"nonsense".to_vec())).finish().is_err());
}

#[test]
fn requests_for_unknown_revisions() {
    assert_eq!(
        message(tree("x", RevRead::Unknown, "a")),
        "ref not found: x"
    );
    let request = LogRequest {
        rev: "x".to_owned(),
        path: None,
        limit: 1,
    };
    assert_eq!(
        message(history(&request, RevRead::NoCommit)),
        "ref not found: x"
    );
    let unknown = api::file("x", RevRead::Unknown, "a".to_owned(), None);
    assert!(matches!(unknown.need(), FileNeed::Nothing));
    assert_eq!(message(unknown.finish()), "ref not found: x");
}

#[test]
fn tags_of_blobs() {
    assert_eq!(etag(id(1)), "\"0000000000000000000000000000000000000001\"");
    assert_ne!(etag(id(1)), etag(id(2)));
}

#[test]
fn media_types_go_by_the_extension() {
    let content_type = |path: &str| {
        let answer = api::file("HEAD", RevRead::Commit(id(1)), path.to_owned(), None)
            .on_entry(Ok(Some(FoundEntry {
                mode: 0o100644,
                id: id(2),
            })))
            .on_blob(BlobRead::Data(Vec::new()))
            .finish()
            .unwrap();
        match answer {
            FileResponse::Content { content_type, .. } => content_type,
            FileResponse::NotModified { .. } => panic!("not modified"),
        }
    };
    assert_eq!(content_type("data.json"), "application/json");
    assert_eq!(content_type("a/b.png"), "image/png");
    assert_eq!(content_type("Makefile"), "application/octet-stream");
    assert_eq!(content_type(".hidden"), "application/octet-stream");
}

#[test]
fn known_tag_reads_no_contents() {
    let request = file_of_type(
        "HEAD",
        RevRead::Commit(id(1)),
        "/a".to_owned(),
        "text/x-test".to_owned(),
        Some(etag(id(2)).into_bytes()),
    );
    match request.need() {
        FileNeed::Entry { commit, path } => {
            assert_eq!(commit, id(1));
            assert_eq!(path, "a");
        }
        other => panic!("{other:?}"),
    }
    let entry = FoundEntry {
        mode: 0o100644,
        id: id(2),
    };
    let answered = request.on_entry(Ok(Some(entry)));
    assert!(matches!(answered.need(), FileNeed::Nothing));
    assert!(matches!(
        answered.finish().unwrap(),
        FileResponse::NotModified { .. }
    ));
    let missing = api::file("HEAD", RevRead::Commit(id(1)), "a".to_owned(), None)
        .on_entry(Ok(Some(entry)))
        .on_blob(BlobRead::Missing);
    assert!(matches!(
        missing.finish(),
        Err(AppError::MissingObjects(ids)) if ids == [id(2)]
    ));
}

#[test]
fn missing_objects_are_fetched_once() {
    let missing = || Err::<u8, _>(AppError::MissingObjects(vec![id(1)]));
    match after_attempt(missing(), false) {
        Attempt::Fetch(ids) => assert_eq!(ids, [id(1)]),
        Attempt::Answer(_) => panic!("answered"),
    }
    assert!(matches!(
        after_attempt(missing(), true),
        Attempt::Answer(Err(AppError::MissingObjects(_)))
    ));
    assert!(matches!(
        after_attempt(Ok::<u8, AppError>(1), false),
        Attempt::Answer(Ok(1))
    ));
    let failed = Err::<u8, _>(AppError::BadRequest(String::new()));
    assert!(matches!(
        after_attempt(failed, false),
        Attempt::Answer(Err(AppError::BadRequest(_)))
    ));
    assert!(after_fetch(Ok(())).is_ok());
    let refused = after_fetch(Err(SyncError::Git("gone".to_owned()))).unwrap_err();
    assert_eq!(refused.into_response().status, 503);
    assert_eq!(refused.message(), "gone");
}

#[test]
fn cache_without_a_repository_is_unavailable() {
    let mut status = Status::default();
    let answer = no_repository(&status);
    assert_eq!(answer.into_response().status, 503);
    assert_eq!(answer.message(), "cache holds no repository");
    status.error = Some("git clone: gone".to_owned());
    assert_eq!(no_repository(&status).message(), "git clone: gone");
}

#[test]
fn entries_differ_in_mode_or_object() {
    let executable = FoundEntry {
        mode: 0o100755,
        ..blob(1)
    };
    assert!(same_entry(&Some(blob(1)), &Some(blob(1))));
    assert!(same_entry(&None, &None));
    assert!(!same_entry(&Some(blob(1)), &Some(blob(2))));
    assert!(!same_entry(&Some(blob(1)), &Some(executable)));
    assert!(!same_entry(&Some(blob(1)), &None));
    // The commit turned the file into an executable one.
    let log = log(id(1), Some("p"), 5)
        .on_walk(Ok(()))
        .on_next(Ok(Some(walked(1, &[2]))))
        .on_entry(Ok(Some(executable)))
        .on_entry(Ok(Some(blob(1))));
    assert!(matches!(log.need(), LogNeed::Data(commit) if commit == id(1)));
}

#[test]
fn refs_described_by_their_short_name() {
    let info = describe_ref(Ok(b"main".to_vec()), id(1)).unwrap();
    assert_eq!(info.name, "main");
    assert_eq!(info.target, id(1).to_hex());
    assert_eq!(
        message(describe_ref(Err("invalid".to_owned()), id(1))),
        "internal error: invalid"
    );
    assert_eq!(describe_name(Ok(b"x\xff".to_vec())).unwrap(), "x\u{fffd}");
    assert_eq!(
        message(describe_name(Err("invalid".to_owned()))),
        "internal error: invalid"
    );
}

#[test]
fn bytes_read_as_text_names_and_entries() {
    assert_eq!(to_text("h\u{e9}llo".as_bytes()), "h\u{e9}llo");
    assert_eq!(to_text(b"a\xffb"), "a\u{fffd}b");
    assert_eq!(short_name_of(b"refs/heads/a/b").unwrap(), b"a/b");
    assert_eq!(short_name_of(b"refs/tags/v1").unwrap(), b"v1");
    assert_eq!(short_name_of(b"HEAD").unwrap(), b"HEAD");
    assert!(short_name_of(b"refs/heads/..").is_err());
    assert!(read_entries(b"").is_empty());
    let entries = read_entries(&tree_data(&[("100644", b"x", id(3))]));
    assert_eq!(entries.len(), 1);
    let entry = entries[0].result.as_ref().unwrap();
    assert_eq!((entry.mode, entry.name.as_slice(), entry.id), (0o100644, &b"x"[..], id(3)));
    assert_eq!(api::content_type("a.json"), "application/json");
    assert_eq!(api::content_type("a"), "application/octet-stream");
}
