//! The mirror: its schedule, its status and what it opens on.
use git_serve::config::{BindRead, Config, MirrorConfig, SocketAddress};
use git_serve::mirror::{
    check_url, is_empty_dir, mismatch, no_repo, CacheRead, Freshness, Mirror, RepoRead, SyncError,
    WorkerStep,
};
use git_serve::status::{iso8601, seconds_since_epoch, Status, Timestamp};
use git_serve::sync::SyncRun;

fn config(url: &str) -> MirrorConfig {
    MirrorConfig {
        url: url.to_owned(),
        cache_dir: b"./cache".to_vec(),
        token: None,
        token_user: "git".to_owned(),
        ttl: 10,
        git_timeout: 100,
        blobless: false,
    }
}

fn at(nanos: i128) -> Timestamp {
    Timestamp { nanos }
}

fn open(url: &str, read: CacheRead) -> Mirror {
    match Mirror::open(config(url), read) {
        Ok(mirror) => mirror,
        Err(e) => panic!("{}", e.message()),
    }
}

fn open_error(config: MirrorConfig, read: CacheRead) -> SyncError {
    match Mirror::open(config, read) {
        Ok(_) => panic!("opened"),
        Err(e) => e,
    }
}

/// Takes the queued sync, if there is one.
fn take(mirror: &mut Mirror) -> Option<SyncRun> {
    match mirror.next_step(false) {
        WorkerStep::Run(run) => Some(run),
        WorkerStep::Wait | WorkerStep::Stop => None,
    }
}

fn ticket(freshness: Freshness) -> (u64, bool) {
    match freshness {
        Freshness::Wait { ticket, wake } => (ticket, wake),
        Freshness::Cached(_) => panic!("fresh"),
    }
}

#[test]
fn first_sync_is_queued_and_requests_wait_for_it() {
    let mut mirror = open("https://example.com/a.git", CacheRead::Missing);
    assert!(!mirror.repo());
    assert_eq!(ticket(mirror.ensure_fresh(false, at(0))), (1, false));
    assert_eq!(ticket(mirror.ensure_fresh(true, at(0))), (1, false));
    assert!(!mirror.is_answered(1));
    assert!(take(&mut mirror).is_some());
    assert!(mirror.is_running());
    mirror.finish_sync(at(5), Ok(()), true, true);
    assert!(!mirror.is_running());
    assert!(mirror.is_answered(1));
    assert!(mirror.repo());
    assert!(take(&mut mirror).is_none());
}

#[test]
fn fresh_cache_is_served_without_a_sync() {
    let mut mirror = open("https://example.com/a.git", CacheRead::Empty);
    take(&mut mirror).unwrap();
    mirror.finish_sync(at(5), Ok(()), true, true);
    match mirror.ensure_fresh(false, at(14)) {
        Freshness::Cached(status) => assert_eq!(status.completed, 1),
        Freshness::Wait { .. } => panic!("stale"),
    }
    assert_eq!(mirror.requested(), 1);
    assert_eq!(ticket(mirror.ensure_fresh(false, at(15))), (2, true));
}

#[test]
fn clock_that_went_backwards_reads_as_stale() {
    let mut mirror = open("https://example.com/a.git", CacheRead::Empty);
    take(&mut mirror).unwrap();
    mirror.finish_sync(at(5), Ok(()), true, true);
    assert_eq!(ticket(mirror.ensure_fresh(false, at(4))), (2, true));
}

#[test]
fn forced_request_waits_for_a_later_sync() {
    let mut mirror = open("https://example.com/a.git", CacheRead::Empty);
    take(&mut mirror).unwrap();
    // The sync that is running is enough without force, and too early with it.
    assert_eq!(ticket(mirror.ensure_fresh(false, at(0))), (1, false));
    assert_eq!(ticket(mirror.ensure_fresh(true, at(0))), (2, true));
    assert_eq!(ticket(mirror.ensure_fresh(true, at(0))), (2, false));
    mirror.finish_sync(at(5), Ok(()), true, true);
    assert!(mirror.is_answered(1));
    assert!(!mirror.is_answered(2));
    assert!(take(&mut mirror).is_some());
    mirror.finish_sync(at(6), Ok(()), true, true);
    assert!(mirror.is_answered(2));
}

#[test]
fn failed_sync_keeps_the_last_success() {
    let mut mirror = open("https://example.com/a.git", CacheRead::Empty);
    take(&mut mirror).unwrap();
    mirror.finish_sync(at(5), Ok(()), true, true);
    mirror.ensure_fresh(true, at(6));
    take(&mut mirror).unwrap();
    let error = SyncError::Git("git fetch timed out".to_owned());
    mirror.finish_sync(at(7), Err(error), true, true);
    let status = mirror.status();
    assert_eq!(status.last_success, Some(at(5)));
    assert_eq!(status.last_attempt, Some(at(7)));
    assert_eq!(status.error.as_deref(), Some("git fetch timed out"));
    mirror.ensure_fresh(true, at(8));
    take(&mut mirror).unwrap();
    mirror.finish_sync(at(9), Ok(()), true, true);
    assert_eq!(mirror.status().error, None);
    assert_eq!(mirror.status().last_success, Some(at(9)));
}

#[test]
fn shutdown_answers_everyone() {
    let mut mirror = open("https://example.com/a.git", CacheRead::Empty);
    assert!(!mirror.is_stopping());
    assert!(!mirror.is_answered(1));
    mirror.shutdown();
    assert!(mirror.is_stopping());
    assert!(mirror.is_answered(1));
}

#[test]
fn password_in_the_url_is_refused() {
    let err = open_error(
        config("https://user:pw@example.com/a.git"),
        CacheRead::Missing,
    );
    assert!(matches!(err, SyncError::PasswordInUrl));
    assert_eq!(
        err.message(),
        "repository URL must not contain a password; pass the token in GIT_SERVE_TOKEN"
    );
}

#[test]
fn url_that_cannot_be_parsed_is_refused() {
    let err = open_error(config("https://"), CacheRead::Missing);
    assert!(matches!(err, SyncError::Git(_)));
    assert!(matches!(
        open_error(config(""), CacheRead::Missing),
        SyncError::Git(_)
    ));
}

#[test]
fn dir_that_cannot_be_read_is_refused() {
    let err = open_error(
        config("https://example.com/a.git"),
        CacheRead::Failed("denied".to_owned()),
    );
    assert!(matches!(err, SyncError::Io { .. }));
    assert_eq!(err.message(), "cannot read cache dir ./cache: denied");
}

#[test]
fn repository_without_origin_is_refused() {
    let read = RepoRead::Repo {
        origin: None,
        real_origin: None,
        real_url: None,
    };
    let err = open_error(
        config("https://example.com/a.git"),
        CacheRead::Filled(read),
    );
    assert_eq!(
        err.message(),
        "cache dir remote \"origin\" is \"\", expected \"https://example.com/a.git\""
    );
}

#[test]
fn emptiness_of_a_dir() {
    assert!(is_empty_dir("d", &CacheRead::Missing).unwrap());
    assert!(is_empty_dir("d", &CacheRead::Empty).unwrap());
    let filled = CacheRead::Filled(RepoRead::NoRepo(String::new()));
    assert!(!is_empty_dir("d", &filled).unwrap());
    let err = is_empty_dir("d", &CacheRead::Failed("e".to_owned())).unwrap_err();
    assert_eq!(err.message(), "cannot read cache dir d: e");
}

#[test]
fn credentials_are_scoped_to_scheme_host_and_port() {
    let mut with_token = config("https://me@example.com:8443/a/b.git");
    with_token.token = Some("t0ken".to_owned());
    let mirror = match Mirror::open(with_token, CacheRead::Missing) {
        Ok(mirror) => mirror,
        Err(e) => panic!("{}", e.message()),
    };
    let credentials = mirror.upstream().credentials.as_ref().unwrap();
    assert_eq!(
        credentials.helper_key,
        "credential.https://example.com:8443.helper"
    );
    assert_eq!(credentials.user, "git");
    assert_eq!(credentials.token, "t0ken");
    assert_eq!(mirror.dir(), b"./cache");
    assert_eq!(mirror.git_timeout(), 100);
    let without = open("https://example.com/a.git", CacheRead::Missing);
    assert!(without.upstream().credentials.is_none());
}

#[test]
fn texts_of_sync_errors() {
    assert_eq!(no_repo().message(), "cache holds no repository");
    assert_eq!(
        mismatch("\"a\"", "\"b\""),
        "cache dir remote \"origin\" is \"b\", expected \"a\""
    );
    let quotes = SyncError::UrlMismatch {
        expected: "a\"b".to_owned(),
        found: "c\nd".to_owned(),
    };
    assert_eq!(
        quotes.message(),
        "cache dir remote \"origin\" is \"c\\nd\", expected \"a\\\"b\""
    );
}

#[test]
fn freshness_at_the_ends_of_time() {
    let mut status = Status::default();
    assert!(!status.is_fresh(at(0), u128::MAX));
    status.last_attempt = Some(at(i128::MIN));
    assert!(!status.is_fresh(at(i128::MAX), u128::MAX));
    assert!(status.is_fresh(at(i128::MAX - 1), u128::MAX));
    assert!(status.is_fresh(at(i128::MIN), 1));
    assert!(!status.is_fresh(at(i128::MIN), 0));
    status.last_attempt = Some(at(-3));
    assert!(status.is_fresh(at(2), 6));
    assert!(!status.is_fresh(at(2), 5));
}

#[test]
fn moments_in_iso_8601() {
    assert_eq!(iso8601(None), None);
    assert_eq!(
        iso8601(Some(at(1_700_000_000_999_999_999))).as_deref(),
        Some("2023-11-14T22:13:20+00:00")
    );
    assert_eq!(
        iso8601(Some(at(-1))).as_deref(),
        Some("1970-01-01T00:00:00+00:00")
    );
    assert_eq!(seconds_since_epoch(at(i128::MAX)), i64::MAX);
    assert_eq!(seconds_since_epoch(at(1_999_999_999)), 1);
}

#[test]
fn status_reads_for_clients() {
    let status = Status {
        completed: 3,
        last_attempt: Some(at(0)),
        last_success: None,
        error: Some("boom".to_owned()),
    };
    let report = status.report();
    assert_eq!(
        report.last_sync_at.as_deref(),
        Some("1970-01-01T00:00:00+00:00")
    );
    assert_eq!(report.last_success_at, None);
    assert_eq!(report.error.as_deref(), Some("boom"));
    assert_eq!(status.clone().completed, 3);
}

#[test]
fn configuration_has_defaults() {
    let config = Config::from_env(Some("url".to_owned()), None, None).unwrap();
    assert_eq!(config.repo_url, "url");
    assert_eq!(config.cache_dir, b"./cache");
    assert_eq!(config.bind, SocketAddress::V4 { ip: 0, port: 8080 });
}

#[test]
fn configuration_needs_a_url() {
    assert_eq!(
        Config::from_env(None, None, None).unwrap_err(),
        "GIT_SERVE_REPO_URL must be set"
    );
}

#[test]
fn configuration_from_the_environment() {
    let bind = SocketAddress::V4 {
        ip: 0x7f00_0001,
        port: 9,
    };
    let config = Config::from_env(
        Some("url".to_owned()),
        Some(b"/var/cache".to_vec()),
        Some(BindRead {
            text: "127.0.0.1:9".to_owned(),
            parsed: Ok(bind),
        }),
    )
    .unwrap();
    assert_eq!(config.cache_dir, b"/var/cache");
    assert_eq!(config.bind, bind);
    let err = Config::from_env(
        Some("url".to_owned()),
        None,
        Some(BindRead {
            text: "no\twhere".to_owned(),
            parsed: Err("invalid".to_owned()),
        }),
    )
    .unwrap_err();
    assert_eq!(
        err,
        "GIT_SERVE_BIND=\"no\\twhere\" is not a socket address: invalid"
    );
}

#[test]
fn worker_runs_what_is_queued_and_ends_on_shutdown() {
    let mut mirror = open("https://example.com/a.git", CacheRead::Empty);
    assert!(matches!(mirror.next_step(false), WorkerStep::Run(_)));
    mirror.finish_sync(at(5), Ok(()), true, true);
    assert!(matches!(mirror.next_step(true), WorkerStep::Wait));
    mirror.ensure_fresh(true, at(6));
    mirror.shutdown();
    // No other sync is begun after one that just ended, and nothing is waited for.
    assert!(matches!(mirror.next_step(true), WorkerStep::Stop));
    assert!(matches!(mirror.next_step(false), WorkerStep::Run(_)));
    mirror.finish_sync(at(7), Ok(()), true, true);
    assert!(matches!(mirror.next_step(false), WorkerStep::Stop));
}

#[test]
fn repository_is_never_lost() {
    let mut mirror = open("https://example.com/a.git", CacheRead::Empty);
    take(&mut mirror).unwrap();
    let error = SyncError::Git("git clone: gone".to_owned());
    mirror.finish_sync(at(5), Err(error), true, true);
    assert!(!mirror.repo());
    mirror.ensure_fresh(true, at(6));
    take(&mut mirror).unwrap();
    mirror.finish_sync(at(7), Ok(()), true, true);
    assert!(mirror.repo());
    for result in [Ok(()), Err(SyncError::Git("gone".to_owned()))] {
        mirror.ensure_fresh(true, at(8));
        take(&mut mirror).unwrap();
        mirror.finish_sync(at(9), result, false, false);
        assert!(mirror.repo());
    }
}

#[test]
fn any_number_of_requests_share_one_more_sync() {
    let mut mirror = open("https://example.com/a.git", CacheRead::Empty);
    take(&mut mirror).unwrap();
    for _ in 0..5 {
        assert_eq!(ticket(mirror.ensure_fresh(false, at(0))), (1, false));
    }
    assert_eq!(ticket(mirror.ensure_fresh(true, at(0))), (2, true));
    for i in 0..6 {
        assert_eq!(ticket(mirror.ensure_fresh(i % 2 == 0, at(0))), (2, false));
    }
    assert_eq!(mirror.requested(), 2);
}

#[test]
fn counters_never_fall() {
    let mut mirror = open("https://example.com/a.git", CacheRead::Empty);
    let (mut requested, mut completed) = (mirror.requested(), mirror.status().completed);
    for i in 0..10 {
        mirror.ensure_fresh(i % 3 == 0, at(i * 4));
        if take(&mut mirror).is_some() {
            let result = if i % 2 == 0 {
                Ok(())
            } else {
                Err(SyncError::Git("gone".to_owned()))
            };
            mirror.finish_sync(at(i * 4 + 1), result, true, true);
        }
        let status = mirror.status();
        assert!(mirror.requested() >= requested && status.completed >= completed);
        if status.error.is_none() {
            assert_eq!(status.last_success, status.last_attempt);
        }
        (requested, completed) = (mirror.requested(), status.completed);
    }
    assert!(completed > 3);
}

#[test]
fn urls_are_checked_before_anything_is_read() {
    let parsed = check_url("https://me@example.com/a.git").unwrap();
    assert_eq!(parsed.host.as_deref(), Some("example.com"));
    assert_eq!(parsed.user.as_deref(), Some("me"));
    assert!(matches!(
        check_url("https://me:pw@example.com/a.git"),
        Err(SyncError::PasswordInUrl)
    ));
    assert!(matches!(check_url(""), Err(SyncError::Git(_))));
}
