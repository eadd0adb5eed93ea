//! Requests: what they ask for, and what they are answered.
use vstd::prelude::*;
use vstd::string::*;
use vstd::utf8::encode_utf8;

use crate::error::{AppError, AppErrorView};
use crate::log::{log, log_path, Log, LogScope, LogState};
use crate::mirror::{SyncError, SyncErrorView};
use crate::object_id::{law_hex_is_injective, ObjectId};
use crate::repo::{
    blob_at, blob_data, commit_of, find_blob, found_view, law_only_files_and_links_have_blobs,
    normal_path, normalize, read_blob, resolve_commit, BlobRead, FoundEntry, RevRead,
};
use crate::status::Status;
use crate::text::{opt_view, same_bytes};
use crate::tree::{read_tree, ReadTree, TreeState};
use crate::url::{check_view, text_bytes};

verus! {

/// How many commits a log lists if nothing is said.
pub const DEFAULT_LOG_LIMIT: usize = 50;

/// How many commits a log lists at most.
pub const MAX_LOG_LIMIT: usize = 500;

/// The query of a request for files or trees.
#[derive(Debug)]
pub struct RevQuery {
    pub rev: Option<String>,
}

/// The revision that a query names: `HEAD` if it names none.
pub open spec fn named_rev(rev: Option<Seq<char>>) -> Seq<char> {
    match rev {
        Some(rev) => rev,
        None => "HEAD"@,
    }
}

fn rev_or_head(rev: Option<String>) -> (r: String)
    ensures
        r@ == named_rev(opt_view(rev)),
{
    match rev {
        Some(rev) => rev,
        None => "HEAD".to_owned(),
    }
}

impl RevQuery {
    /// The revision that the query names: `HEAD` if it names none.
    pub fn rev(self) -> (r: String)
        ensures
            r@ == named_rev(opt_view(self.rev)),
    {
        rev_or_head(self.rev)
    }
}

/// The query of a request for commits.
#[derive(Debug)]
pub struct LogQuery {
    pub rev: Option<String>,
    pub path: Option<String>,
    pub limit: Option<usize>,
}

/// A request for commits.
#[derive(Debug)]
pub struct LogRequest {
    pub rev: String,
    pub path: Option<String>,
    pub limit: usize,
}

/// How many commits a query asks for.
pub open spec fn wanted_limit(limit: Option<usize>) -> usize {
    match limit {
        Some(limit) => limit,
        None => DEFAULT_LOG_LIMIT,
    }
}

/// What a query for commits asks for: the revision, the path and how many. A limit that is out of
/// range is refused.
pub open spec fn commits_request(
    rev: Option<Seq<char>>,
    path: Option<Seq<char>>,
    limit: Option<usize>,
) -> Result<(Seq<char>, Option<Seq<char>>, usize), AppErrorView> {
    if 1 <= wanted_limit(limit) <= MAX_LOG_LIMIT {
        Ok((named_rev(rev), path, wanted_limit(limit)))
    } else {
        Err(AppErrorView::BadRequest("limit must be between 1 and 500"@))
    }
}

/// What a query for commits asks for. A limit that is out of range is refused.
pub fn commits(q: LogQuery) -> (r: Result<LogRequest, AppError>)
    ensures
        match r {
            Ok(request) => {
                &&& 1 <= wanted_limit(q.limit) <= MAX_LOG_LIMIT
                &&& request.rev@ == named_rev(opt_view(q.rev))
                &&& request.path == q.path
                &&& request.limit == wanted_limit(q.limit)
            },
            Err(e) => {
                &&& !(1 <= wanted_limit(q.limit) <= MAX_LOG_LIMIT)
                &&& e@ == AppErrorView::BadRequest("limit must be between 1 and 500"@)
            },
        },
        commits_request(opt_view(q.rev), opt_view(q.path), q.limit) == match r {
            Ok(request) => Ok((request.rev@, opt_view(request.path), request.limit)),
            Err(e) => Err(e@),
        },
{
    let limit: usize = match q.limit {
        Some(limit) => limit,
        None => DEFAULT_LOG_LIMIT,
    };
    if limit < 1 || limit > MAX_LOG_LIMIT {
        return Err(AppError::BadRequest("limit must be between 1 and 500".to_owned()));
    }
    Ok(LogRequest { rev: rev_or_head(q.rev), path: q.path, limit })
}

/// Begins to answer a request for the tree at `path` (empty for the root), `read` being what
/// looking up its revision gave.
pub fn tree(rev: &str, read: RevRead, path: &str) -> (r: Result<ReadTree, AppError>)
    ensures
        match r {
            Ok(listing) => commit_of(rev@, read) is Ok && listing.dir() == normal_path(path@)
                && listing.state() == TreeState::Root(commit_of(rev@, read)->Ok_0),
            Err(e) => commit_of(rev@, read) == Err::<ObjectId, _>(e@),
        },
{
    match resolve_commit(rev, read) {
        Ok(commit) => Ok(read_tree(commit, path)),
        Err(e) => Err(e),
    }
}

/// Begins to answer a request for the root tree.
pub fn tree_root(rev: &str, read: RevRead) -> (r: Result<ReadTree, AppError>)
    ensures
        match r {
            Ok(listing) => commit_of(rev@, read) is Ok && listing.dir().len() == 0
                && listing.state() == TreeState::Root(commit_of(rev@, read)->Ok_0),
            Err(e) => commit_of(rev@, read) == Err::<ObjectId, _>(e@),
        },
{
    proof {
        reveal_strlit("");
    }
    tree(rev, read, "")
}

/// Begins to answer a request for commits, `read` being what looking up its revision gave.
pub fn history(request: &LogRequest, read: RevRead) -> (r: Result<Log, AppError>)
    ensures
        match r {
            Ok(log) => commit_of(request.rev@, read) is Ok && log.scope() == (LogScope {
                path: log_path(opt_view(request.path)),
                limit: request.limit as nat,
            }) && log.state() == LogState::Start(commit_of(request.rev@, read)->Ok_0),
            Err(e) => commit_of(request.rev@, read) == Err::<ObjectId, _>(e@),
        },
{
    match resolve_commit(request.rev.as_str(), read) {
        Err(e) => Err(e),
        Ok(commit) => match &request.path {
            Some(path) => Ok(log(commit, Some(path.as_str()), request.limit)),
            None => Ok(log(commit, None, request.limit)),
        },
    }
}

/// The media type of a file, going by its path.
pub uninterp spec fn media_type(path: Seq<char>) -> Seq<char>;

/// Calls `mime_guess::from_path` and `MimeGuess::first_or_octet_stream`. A path without a dot has
/// no extension, and then the type is `application/octet-stream`; which types the known extensions
/// have is left to the name.
#[verifier::external_body]
fn guess_type(path: &str) -> (r: String)
    ensures
        r@ == media_type(path@),
        !path@.contains('.') ==> r@ == "application/octet-stream"@,
{
    mime_guess::from_path(path).first_or_octet_stream().as_ref().to_owned()
}

/// The type that a file is sent as, going by its path; without an extension nothing is known of it.
pub open spec fn content_type_of(path: Seq<char>) -> Seq<char> {
    if path.contains('.') {
        media_type(path)
    } else {
        "application/octet-stream"@
    }
}

/// The type that a file is sent as, going by its path.
pub fn content_type(path: &str) -> (r: String)
    ensures
        r@ == content_type_of(path@),
{
    guess_type(path)
}

/// The entity tag of a blob: its id in quotation marks.
pub open spec fn etag_text(id: ObjectId) -> Seq<char> {
    "\""@ + id.hex() + "\""@
}

/// The entity tag of a blob.
pub fn etag(id: ObjectId) -> (r: String)
    ensures
        r@ == etag_text(id),
{
    let mut out = "\"".to_owned();
    id.push_hex(&mut out);
    out.append("\"");
    out
}

/// The answer to a request for a file.
#[derive(Debug)]
pub enum FileResponse {
    /// The client has these bytes already.
    NotModified { etag: String },
    Content { etag: String, content_type: String, data: Vec<u8> },
}

/// The view of a [`FileResponse`].
pub enum FileResponseView {
    NotModified { etag: Seq<char> },
    Content { etag: Seq<char>, content_type: Seq<char>, data: Seq<u8> },
}

impl View for FileResponse {
    type V = FileResponseView;

    open spec fn view(&self) -> FileResponseView {
        match self {
            FileResponse::NotModified { etag } => FileResponseView::NotModified { etag: etag@ },
            FileResponse::Content { etag, content_type, data } => FileResponseView::Content {
                etag: etag@,
                content_type: content_type@,
                data: data@,
            },
        }
    }
}

/// A request for a file: its path, and the entity tag that the client knows.
pub struct FileRequestView {
    pub path: Seq<char>,
    pub content_type: Seq<char>,
    pub if_none_match: Option<Seq<u8>>,
}

/// How far answering a request for a file has come.
pub enum FileState {
    /// The entry at the path in the tree of this commit is needed.
    Entry(ObjectId),
    /// The contents of this blob are needed.
    Blob(ObjectId),
    Done(Result<FileResponseView, AppErrorView>),
}

impl FileRequestView {
    /// The state after the entry was looked up. Blobs are content-addressed, so a matching tag
    /// means that the client already has these bytes.
    pub open spec fn after_entry(
        self,
        found: Result<Option<FoundEntry>, Seq<char>>,
    ) -> FileState {
        match blob_at(self.path, found) {
            Err(e) => FileState::Done(Err(e)),
            Ok(id) => if self.if_none_match == Some(text_bytes(etag_text(id))) {
                FileState::Done(Ok(FileResponseView::NotModified { etag: etag_text(id) }))
            } else {
                FileState::Blob(id)
            },
        }
    }

    /// The state after the blob `id` was read.
    pub open spec fn after_blob(self, id: ObjectId, read: BlobRead) -> FileState {
        FileState::Done(
            match blob_data(id, read) {
                Err(e) => Err(e),
                Ok(data) => Ok(
                    FileResponseView::Content {
                        etag: etag_text(id),
                        content_type: self.content_type,
                        data,
                    },
                ),
            },
        )
    }
}

enum FilePhase {
    Entry(ObjectId),
    Blob(ObjectId),
    Done(Result<FileResponse, AppError>),
}

/// A request for a file that is being answered.
pub struct FileRequest {
    path: String,
    content_type: String,
    if_none_match: Option<Vec<u8>>,
    phase: FilePhase,
}

/// The part of the repository that a request for a file needs next.
#[derive(Debug)]
pub enum FileNeed {
    /// The entry at this path in the tree of this commit.
    Entry { commit: ObjectId, path: String },
    /// The contents of this blob.
    Blob(ObjectId),
    /// Nothing: the request is answered.
    Nothing,
}

/// The view of an answer to a request for a file.
pub open spec fn answer_view(r: Result<FileResponse, AppError>) -> Result<
    FileResponseView,
    AppErrorView,
> {
    match r {
        Ok(response) => Ok(response@),
        Err(e) => Err(e@),
    }
}

impl FileRequest {
    /// What is asked for.
    pub closed spec fn request(&self) -> FileRequestView {
        FileRequestView {
            path: self.path@,
            content_type: self.content_type@,
            if_none_match: opt_view(self.if_none_match),
        }
    }

    /// How far answering it has come.
    pub closed spec fn state(&self) -> FileState {
        match self.phase {
            FilePhase::Entry(commit) => FileState::Entry(commit),
            FilePhase::Blob(id) => FileState::Blob(id),
            FilePhase::Done(r) => FileState::Done(answer_view(r)),
        }
    }

    /// What is needed next.
    pub fn need(&self) -> (r: FileNeed)
        ensures
            match self.state() {
                FileState::Entry(at) => r matches FileNeed::Entry { commit, path } && commit == at
                    && path@ == normal_path(self.request().path),
                FileState::Blob(id) => r == FileNeed::Blob(id),
                FileState::Done(_) => r is Nothing,
            },
    {
        match &self.phase {
            FilePhase::Entry(commit) => FileNeed::Entry {
                commit: *commit,
                path: normalize(self.path.as_str()).to_owned(),
            },
            FilePhase::Blob(id) => FileNeed::Blob(*id),
            FilePhase::Done(_) => FileNeed::Nothing,
        }
    }

    /// Goes on with the entry at the path.
    pub fn on_entry(self, found: Result<Option<FoundEntry>, String>) -> (r: FileRequest)
        requires
            self.state() is Entry,
        ensures
            r.request() == self.request(),
            r.state() == self.request().after_entry(found_view(found)),
    {
        let phase = match find_blob(self.path.as_str(), found) {
            Err(e) => FilePhase::Done(Err(e)),
            Ok(id) => {
                let etag = etag(id);
                let known: bool = match &self.if_none_match {
                    Some(tag) => same_bytes(tag.as_slice(), etag.as_str().as_bytes()),
                    None => false,
                };
                if known {
                    FilePhase::Done(Ok(FileResponse::NotModified { etag }))
                } else {
                    FilePhase::Blob(id)
                }
            },
        };
        FileRequest {
            path: self.path,
            content_type: self.content_type,
            if_none_match: self.if_none_match,
            phase,
        }
    }

    /// Goes on with the contents of the blob.
    pub fn on_blob(self, read: BlobRead) -> (r: FileRequest)
        requires
            self.state() is Blob,
        ensures
            r.request() == self.request(),
            r.state() == self.request().after_blob(self.state()->Blob_0, read),
    {
        let id = match &self.phase {
            FilePhase::Blob(id) => *id,
            _ => return self,
        };
        let answer = match read_blob(id, read) {
            Err(e) => Err(e),
            Ok(data) => Ok(
                FileResponse::Content {
                    etag: etag(id),
                    content_type: self.content_type.clone(),
                    data,
                },
            ),
        };
        FileRequest {
            path: self.path,
            content_type: self.content_type,
            if_none_match: self.if_none_match,
            phase: FilePhase::Done(answer),
        }
    }

    /// The answer, once nothing more is needed.
    pub fn finish(self) -> (r: Result<FileResponse, AppError>)
        requires
            self.state() is Done,
        ensures
            self.state() == FileState::Done(answer_view(r)),
    {
        match self.phase {
            FilePhase::Done(r) => r,
            _ => Err(AppError::Internal(String::new())),
        }
    }
}

/// Begins to answer a request for the file at `path`, which is of the type `content_type`; `read`
/// is what looking up its revision gave.
pub fn file_of_type(
    rev: &str,
    read: RevRead,
    path: String,
    content_type: String,
    if_none_match: Option<Vec<u8>>,
) -> (r: FileRequest)
    ensures
        r.request() == (FileRequestView {
            path: path@,
            content_type: content_type@,
            if_none_match: opt_view(if_none_match),
        }),
        r.state() == match commit_of(rev@, read) {
            Ok(commit) => FileState::Entry(commit),
            Err(e) => FileState::Done(Err(e)),
        },
{
    let phase = match resolve_commit(rev, read) {
        Ok(commit) => FilePhase::Entry(commit),
        Err(e) => FilePhase::Done(Err(e)),
    };
    FileRequest { path, content_type, if_none_match, phase }
}

/// Begins to answer a request for the file at `path`; `read` is what looking up its revision gave,
/// and `if_none_match` the entity tag that the client knows.
pub fn file(rev: &str, read: RevRead, path: String, if_none_match: Option<Vec<u8>>) -> (r:
    FileRequest)
    ensures
        r.request() == (FileRequestView {
            path: path@,
            content_type: content_type_of(path@),
            if_none_match: opt_view(if_none_match),
        }),
        !path@.contains('.') ==> r.request().content_type == "application/octet-stream"@,
        r.state() == match commit_of(rev@, read) {
            Ok(commit) => FileState::Entry(commit),
            Err(e) => FileState::Done(Err(e)),
        },
{
    let content_type = content_type(path.as_str());
    file_of_type(rev, read, path, content_type, if_none_match)
}

/// The answer to a request for a file when every need is answered.
pub open spec fn file_answer(
    request: FileRequestView,
    found: Result<Option<FoundEntry>, Seq<char>>,
    blob: spec_fn(ObjectId) -> BlobRead,
) -> Result<FileResponseView, AppErrorView> {
    match request.after_entry(found) {
        FileState::Blob(id) => request.after_blob(id, blob(id))->Done_0,
        FileState::Done(r) => r,
        FileState::Entry(_) => Err(AppErrorView::Internal(Seq::empty())),
    }
}

/// A file is answered with the contents of its blob, under the blob's tag, unless the client knows
/// the tag already; then nothing is read.
pub proof fn law_file_is_answered_by_its_blob(
    request: FileRequestView,
    found: Result<Option<FoundEntry>, Seq<char>>,
    blob: spec_fn(ObjectId) -> BlobRead,
)
    ensures
        file_answer(request, found, blob) == match blob_at(request.path, found) {
            Err(e) => Err(e),
            Ok(id) => if request.if_none_match == Some(text_bytes(etag_text(id))) {
                Ok(FileResponseView::NotModified { etag: etag_text(id) })
            } else {
                match blob_data(id, blob(id)) {
                    Err(e) => Err(e),
                    Ok(data) => Ok(
                        FileResponseView::Content {
                            etag: etag_text(id),
                            content_type: request.content_type,
                            data,
                        },
                    ),
                }
            },
        },
        (request.after_entry(found) matches FileState::Blob(id) ==> request.if_none_match != Some(
            text_bytes(etag_text(id)),
        )),
{
}

/// The tag that comes with a file, sent back while the path leads to the same blob, is answered
/// with the same tag and no contents.
pub proof fn law_tag_sent_back_is_not_modified(
    request: FileRequestView,
    found: Result<Option<FoundEntry>, Seq<char>>,
    blob: spec_fn(ObjectId) -> BlobRead,
    etag: Seq<char>,
    content_type: Seq<char>,
    data: Seq<u8>,
)
    requires
        file_answer(request, found, blob) == Ok::<_, AppErrorView>(
            (FileResponseView::Content { etag, content_type, data }),
        ),
    ensures
        file_answer(
            FileRequestView { if_none_match: Some(text_bytes(etag)), ..request },
            found,
            blob,
        ) == Ok::<_, AppErrorView>((FileResponseView::NotModified { etag })),
{
}

/// Two blobs have the same tag exactly if they are the same blob.
pub proof fn law_tag_identifies_the_blob(a: ObjectId, b: ObjectId)
    ensures
        etag_text(a) == etag_text(b) <==> a == b,
{
    reveal_strlit("\"");
    if etag_text(a) == etag_text(b) {
        assert(a.hex() =~= etag_text(a).subrange(1, 41));
        assert(b.hex() =~= etag_text(b).subrange(1, 41));
        law_hex_is_injective(a, b);
    }
}

/// What to do with what reading the repository for a request gave.
pub enum Attempt<T> {
    /// This is the answer.
    Answer(Result<T, AppError>),
    /// These objects are to be fetched first, and the request is to be tried again.
    Fetch(Vec<ObjectId>),
}

/// The objects that are to be fetched before a request is tried again, if it is.
pub open spec fn objects_to_fetch<T>(result: Result<T, AppError>, retried: bool) -> Option<
    Seq<ObjectId>,
> {
    match result {
        Err(AppError::MissingObjects(ids)) => if retried {
            None
        } else {
            Some(ids@)
        },
        _ => None,
    }
}

/// What to do with what reading the repository for a request gave. Objects that a partial clone
/// has not fetched yet are fetched and the request is `retried`, once.
pub fn after_attempt<T>(result: Result<T, AppError>, retried: bool) -> (r: Attempt<T>)
    ensures
        match result {
            Err(AppError::MissingObjects(ids)) => if retried {
                r == Attempt::<T>::Answer(result)
            } else {
                r == Attempt::<T>::Fetch(ids)
            },
            _ => r == Attempt::<T>::Answer(result),
        },
        match objects_to_fetch(result, retried) {
            Some(ids) => r matches Attempt::Fetch(fetched) && fetched@ == ids,
            None => r == Attempt::<T>::Answer(result),
        },
{
    match result {
        Err(AppError::MissingObjects(ids)) => if retried {
            Attempt::Answer(Err(AppError::MissingObjects(ids)))
        } else {
            Attempt::Fetch(ids)
        },
        result => Attempt::Answer(result),
    }
}

/// What a request is answered whose objects could not be fetched.
pub open spec fn fetch_answer(fetched: Result<(), SyncErrorView>) -> Result<(), AppErrorView> {
    match fetched {
        Ok(_) => Ok(()),
        Err(e) => Err(AppErrorView::Unavailable(e.message())),
    }
}

/// What a request is answered whose objects could not be fetched.
pub fn after_fetch(fetched: Result<(), SyncError>) -> (r: Result<(), AppError>)
    ensures
        match r {
            Ok(_) => fetched is Ok,
            Err(e) => check_view(fetched) matches Err(cause) && e@ == AppErrorView::Unavailable(
                cause.message(),
            ),
        },
        fetch_answer(check_view(fetched)) == match r {
            Ok(_) => Ok(()),
            Err(e) => Err(e@),
        },
{
    match fetched {
        Ok(_) => Ok(()),
        Err(e) => Err(AppError::Unavailable(e.message())),
    }
}

/// What a request is answered while the cache holds no repository, given the error of the last
/// sync, if it failed.
pub open spec fn unavailable(error: Option<Seq<char>>) -> AppErrorView {
    AppErrorView::Unavailable(
        match error {
            Some(e) => e,
            None => "cache holds no repository"@,
        },
    )
}

/// What a request is answered while the cache holds no repository: the error of the last sync, if
/// it failed.
pub fn no_repository(status: &Status) -> (r: AppError)
    ensures
        r@ == AppErrorView::Unavailable(
            match status@.error {
                Some(e) => e,
                None => "cache holds no repository"@,
            },
        ),
        r@ == unavailable(status@.error),
{
    match &status.error {
        Some(e) => AppError::Unavailable(e.clone()),
        None => AppError::Unavailable("cache holds no repository".to_owned()),
    }
}

/// A query names the revision that it says, and `HEAD` only if it says none.
pub proof fn law_revisions_default_to_head(rev: Seq<char>)
    ensures
        named_rev(Some(rev)) == rev,
        named_rev(None) == "HEAD"@,
{
}

/// A query asks for as many commits as it says, and for fifty if it says nothing. No more than five
/// hundred can be asked for.
pub proof fn law_limits_are_taken_as_they_are(limit: usize)
    ensures
        wanted_limit(Some(limit)) == limit,
        wanted_limit(None) == 50,
        MAX_LOG_LIMIT == 500,
{
}

/// A file is sent as the type that its path says; a path without a dot says none.
pub proof fn law_types_go_by_the_path(path: Seq<char>)
    ensures
        (exists|i: int| 0 <= i < path.len() && #[trigger] path[i] == '.') ==> content_type_of(path)
            == media_type(path),
        (forall|i: int| 0 <= i < path.len() ==> #[trigger] path[i] != '.') ==> content_type_of(path)
            == "application/octet-stream"@,
{
}

/// A tag is the forty hex digits of the blob between quotation marks.
pub proof fn law_tag_is_the_quoted_id(id: ObjectId)
    ensures
        etag_text(id).len() == 42,
        etag_text(id)[0] == '"',
        etag_text(id)[41] == '"',
        etag_text(id).subrange(1, 41) == id.hex(),
{
    reveal_strlit("\"");
    assert(etag_text(id).subrange(1, 41) =~= id.hex());
}

/// The contents of a file are answered byte for byte: where the path leads to a file or a link that
/// the client does not have, and its blob is read, the answer is those bytes, as many and the same
/// at each position, under the tag of the blob and with the type of the request.
pub proof fn law_file_is_answered_byte_for_byte(
    request: FileRequestView,
    entry: FoundEntry,
    blob: spec_fn(ObjectId) -> BlobRead,
    data: Vec<u8>,
)
    requires
        entry.mode / 4096 == 8 || entry.mode / 4096 == 10,
        blob(entry.id) == BlobRead::Data(data),
    ensures
        ({
            let tag = "\""@ + entry.id.hex() + "\""@;
            let answer = file_answer(request, Ok(Some(entry)), blob);
            &&& request.if_none_match == Some(encode_utf8(tag)) ==> answer == Ok::<
                _,
                AppErrorView,
            >(FileResponseView::NotModified { etag: tag })
            &&& request.if_none_match != Some(encode_utf8(tag)) ==> (answer matches Ok(
                FileResponseView::Content { etag, content_type, data: bytes },
            ) && {
                &&& etag == tag
                &&& content_type == request.content_type
                &&& bytes.len() == data@.len()
                &&& forall|i: int| 0 <= i < data@.len() ==> #[trigger] bytes[i] == data@[i]
            })
        }),
{
    law_only_files_and_links_have_blobs(request.path, entry, Seq::empty());
}

/// A file that is not answered says why: what is no file is a bad request, what is not there is not
/// found, and a blob that the cache lacks is asked for by its id. The path is named without its
/// outer slashes.
pub proof fn law_unanswered_files_say_why(
    request: FileRequestView,
    entry: FoundEntry,
    blob: spec_fn(ObjectId) -> BlobRead,
    cause: Seq<char>,
)
    ensures
        ({
            let found = file_answer(request, Ok(Some(entry)), blob);
            let is_file = entry.mode / 4096 == 8 || entry.mode / 4096 == 10;
            let known = request.if_none_match == Some(
                encode_utf8("\""@ + entry.id.hex() + "\""@),
            );
            &&& !is_file ==> found == Err::<FileResponseView, _>(
                AppErrorView::BadRequest("not a file: "@ + normal_path(request.path)),
            )
            &&& is_file && known ==> found == Ok::<_, AppErrorView>(
                FileResponseView::NotModified { etag: "\""@ + entry.id.hex() + "\""@ },
            )
            &&& is_file && !known ==> match blob(entry.id) {
                BlobRead::Missing => found matches Err(AppErrorView::MissingObjects(ids))
                    && ids.len() == 1 && ids[0] == entry.id,
                BlobRead::Failed(e) => found == Err::<FileResponseView, _>(
                    AppErrorView::Internal(e@),
                ),
                BlobRead::NoBlob(e) => found == Err::<FileResponseView, _>(
                    AppErrorView::Internal(e@),
                ),
                BlobRead::Data(_) => found is Ok,
            }
        }),
        file_answer(request, Ok(None), blob) == Err::<FileResponseView, _>(
            AppErrorView::PathNotFound(normal_path(request.path)),
        ),
        file_answer(request, Err(cause), blob) == Err::<FileResponseView, _>(
            AppErrorView::Internal(cause),
        ),
{
    law_only_files_and_links_have_blobs(request.path, entry, cause);
}

/// A blob that was read is answered as it is, whatever was asked for.
pub proof fn law_content_is_what_was_read(request: FileRequestView, id: ObjectId, data: Vec<u8>)
    ensures
        request.after_blob(id, BlobRead::Data(data)) matches FileState::Done(
            Ok(FileResponseView::Content { etag, content_type, data: bytes }),
        ) && {
            &&& etag == "\""@ + id.hex() + "\""@
            &&& content_type == request.content_type
            &&& bytes.len() == data@.len()
            &&& forall|i: int| 0 <= i < data@.len() ==> #[trigger] bytes[i] == data@[i]
        },
{
}

/// An answer is seen with all its parts.
pub proof fn law_answers_are_seen_in_full(
    etag: String,
    content_type: String,
    data: Vec<u8>,
    answer: Result<FileResponse, AppError>,
)
    ensures
        (FileResponse::NotModified { etag })@ == (FileResponseView::NotModified { etag: etag@ }),
        (FileResponse::Content { etag, content_type, data })@ == (FileResponseView::Content {
            etag: etag@,
            content_type: content_type@,
            data: data@,
        }),
        answer matches Ok(response) ==> answer_view(answer) == Ok::<_, AppErrorView>(response@),
        answer matches Err(e) ==> answer_view(answer) == Err::<FileResponseView, _>(e@),
{
}

/// A query for commits is granted exactly if it asks for one to five hundred of them, fifty if it
/// does not say; and then it asks for what it says, of `HEAD` if it does not say of what.
pub proof fn law_queries_are_granted_by_their_limit(
    rev: Option<Seq<char>>,
    path: Option<Seq<char>>,
    limit: usize,
)
    ensures
        1 <= limit <= 500 ==> (commits_request(rev, path, Some(limit)) matches Ok(request) && {
            &&& rev matches Some(rev) ==> request.0 == rev
            &&& rev is None ==> request.0 == "HEAD"@
            &&& request.1 == path
            &&& request.2 == limit
        }),
        limit < 1 || limit > 500 ==> commits_request(rev, path, Some(limit)) == Err::<
            (Seq<char>, Option<Seq<char>>, usize),
            _,
        >(AppErrorView::BadRequest("limit must be between 1 and 500"@)),
        commits_request(rev, path, None) == commits_request(rev, path, Some(50)),
{
}

/// Objects are fetched exactly if they are all that a request lacks, and only before it was tried
/// again: the same objects, in the same order.
pub proof fn law_missing_objects_are_fetched_once<T>(
    result: Result<T, AppError>,
    ids: Vec<ObjectId>,
    retried: bool,
)
    ensures
        objects_to_fetch(Err::<T, _>(AppError::MissingObjects(ids)), false) == Some(ids@),
        objects_to_fetch(result, true) is None,
        !(result matches Err(AppError::MissingObjects(_))) ==> objects_to_fetch(
            result,
            retried,
        ) is None,
{
}

/// A request whose objects cannot be fetched, or for which there is no repository, is told that the
/// service is unavailable, and why.
pub proof fn law_unavailable_says_why(e: SyncErrorView, error: Seq<char>)
    ensures
        fetch_answer(Ok(())) is Ok,
        fetch_answer(Err(e)) == Err::<(), _>(AppErrorView::Unavailable(e.message())),
        unavailable(Some(error)) == AppErrorView::Unavailable(error),
        unavailable(None) == AppErrorView::Unavailable("cache holds no repository"@),
{
}

} // verus!
