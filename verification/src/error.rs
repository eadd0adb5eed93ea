//! Errors of a request, and the response each of them gets.
use vstd::prelude::*;
use vstd::string::*;

use crate::object_id::ObjectId;

verus! {

/// Why a request failed.
#[derive(Debug)]
pub enum AppError {
    RefNotFound(String),
    PathNotFound(String),
    BadRequest(String),
    Unavailable(String),
    Internal(String),
    /// Objects a partial clone has not fetched yet; they are fetched and the request is retried.
    MissingObjects(Vec<ObjectId>),
}

/// The view of an [`AppError`].
pub enum AppErrorView {
    RefNotFound(Seq<char>),
    PathNotFound(Seq<char>),
    BadRequest(Seq<char>),
    Unavailable(Seq<char>),
    Internal(Seq<char>),
    MissingObjects(Seq<ObjectId>),
}

impl View for AppError {
    type V = AppErrorView;

    open spec fn view(&self) -> AppErrorView {
        match self {
            AppError::RefNotFound(s) => AppErrorView::RefNotFound(s@),
            AppError::PathNotFound(s) => AppErrorView::PathNotFound(s@),
            AppError::BadRequest(s) => AppErrorView::BadRequest(s@),
            AppError::Unavailable(s) => AppErrorView::Unavailable(s@),
            AppError::Internal(s) => AppErrorView::Internal(s@),
            AppError::MissingObjects(ids) => AppErrorView::MissingObjects(ids@),
        }
    }
}

/// The ids written one after another, each as `Sha1(..)`, with commas between them.
pub open spec fn id_list(ids: Seq<ObjectId>) -> Seq<char>
    decreases ids.len(),
{
    if ids.len() == 0 {
        Seq::empty()
    } else if ids.len() == 1 {
        "Sha1("@ + ids[0].hex() + ")"@
    } else {
        id_list(ids.drop_last()) + ", Sha1("@ + ids.last().hex() + ")"@
    }
}

impl AppErrorView {
    /// The text of the error.
    pub open spec fn message(self) -> Seq<char> {
        match self {
            AppErrorView::RefNotFound(s) => "ref not found: "@ + s,
            AppErrorView::PathNotFound(s) => "path not found: "@ + s,
            AppErrorView::BadRequest(s) => s,
            AppErrorView::Unavailable(s) => s,
            AppErrorView::Internal(s) => "internal error: "@ + s,
            AppErrorView::MissingObjects(ids) => "objects not in the cache: ["@ + id_list(ids)
                + "]"@,
        }
    }

    /// The HTTP status of the response.
    pub open spec fn status(self) -> u16 {
        match self {
            AppErrorView::RefNotFound(_) => 404,
            AppErrorView::PathNotFound(_) => 404,
            AppErrorView::BadRequest(_) => 400,
            AppErrorView::Unavailable(_) => 503,
            AppErrorView::Internal(_) => 500,
            AppErrorView::MissingObjects(_) => 500,
        }
    }

    /// After how many seconds the client may try again, if that can help.
    pub open spec fn retry_after(self) -> Option<u32> {
        match self {
            AppErrorView::Unavailable(_) => Some(5),
            _ => None,
        }
    }

    /// What the client reads. The details of an internal error are not for the client.
    pub open spec fn public_message(self) -> Seq<char> {
        if self.status() == 500 {
            "internal error"@
        } else {
            self.message()
        }
    }
}

/// The response to a failed request: a status, possibly a `Retry-After` header in seconds, and
/// the text that the JSON body holds under `error`.
pub struct ErrorResponse {
    pub status: u16,
    pub retry_after: Option<u32>,
    pub error: String,
}

impl AppError {
    /// An internal error with the text of its cause.
    pub fn internal(cause: String) -> (r: AppError)
        ensures
            r@ == AppErrorView::Internal(cause@),
    {
        AppError::Internal(cause)
    }

    /// The text of the error.
    pub fn message(&self) -> (r: String)
        ensures
            r@ == self@.message(),
    {
        match self {
            AppError::RefNotFound(s) => "ref not found: ".to_owned().concat(s.as_str()),
            AppError::PathNotFound(s) => "path not found: ".to_owned().concat(s.as_str()),
            AppError::BadRequest(s) => s.clone(),
            AppError::Unavailable(s) => s.clone(),
            AppError::Internal(s) => "internal error: ".to_owned().concat(s.as_str()),
            AppError::MissingObjects(ids) => {
                let mut out = "objects not in the cache: [".to_owned();
                let ghost start = out@;
                let len: usize = ids.len();
                assert(ids@.take(0) =~= Seq::<ObjectId>::empty());
                assert(out@ =~= start + id_list(ids@.take(0)));
                for i in 0..len
                    invariant
                        len == ids@.len(),
                        out@ == start + id_list(ids@.take(i as int)),
                {
                    let ghost before = out@;
                    let ghost part = ids@.take(i + 1);
                    assert(part.drop_last() =~= ids@.take(i as int));
                    if i > 0 {
                        out.append(", Sha1(");
                    } else {
                        out.append("Sha1(");
                    }
                    ids[i].push_hex(&mut out);
                    out.append(")");
                    assert(out@ =~= start + id_list(part));
                }
                out.append("]");
                assert(ids@.take(len as int) =~= ids@);
                assert(out@ =~= start + id_list(ids@) + "]"@);
                assert(out@ =~= self@.message());
                out
            },
        }
    }

    /// The response to a request that failed with this error.
    pub fn into_response(&self) -> (r: ErrorResponse)
        ensures
            r.status == self@.status(),
            r.retry_after == (if self@ is Unavailable {
                Some(5u32)
            } else {
                None
            }),
            r.retry_after == self@.retry_after(),
            r.error@ == self@.public_message(),
    {
        let status: u16 = match self {
            AppError::RefNotFound(_) => 404,
            AppError::PathNotFound(_) => 404,
            AppError::BadRequest(_) => 400,
            AppError::Unavailable(_) => {
                return ErrorResponse {
                    status: 503,
                    retry_after: Some(5),
                    error: self.message(),
                };
            },
            _ => {
                return ErrorResponse {
                    status: 500,
                    retry_after: None,
                    error: "internal error".to_owned(),
                };
            },
        };
        ErrorResponse { status, retry_after: None, error: self.message() }
    }
}

/// What caused an internal error does not show in the response: all of them are answered alike.
pub proof fn law_internal_errors_are_opaque(a: AppErrorView, b: AppErrorView)
    requires
        a is Internal || a is MissingObjects,
        b is Internal || b is MissingObjects,
    ensures
        a.status() == b.status() == 500,
        a.public_message() == b.public_message(),
{
}

/// A failure is answered by its own kind of status, and only a failure of that kind is.
pub proof fn law_status_tells_the_failure(e: AppErrorView)
    ensures
        e.status() == 404 <==> e is RefNotFound || e is PathNotFound,
        e.status() == 400 <==> e is BadRequest,
        e.status() == 503 <==> e is Unavailable,
        e.status() == 500 <==> e is Internal || e is MissingObjects,
        e.status() == 404 || e.status() == 400 || e.status() == 503 || e.status() == 500,
{
}

/// A client reads the whole text of its own failure, behind what was not found, and nothing of
/// an internal one.
pub proof fn law_client_reads_its_own_failure(text: Seq<char>, ids: Seq<ObjectId>)
    ensures
        AppErrorView::RefNotFound(text).public_message() == "ref not found: "@ + text,
        AppErrorView::PathNotFound(text).public_message() == "path not found: "@ + text,
        AppErrorView::BadRequest(text).public_message() == text,
        AppErrorView::Unavailable(text).public_message() == text,
        AppErrorView::Internal(text).public_message() == "internal error"@,
        AppErrorView::MissingObjects(ids).public_message() == "internal error"@,
        AppErrorView::RefNotFound(text).message() == "ref not found: "@ + text,
        AppErrorView::PathNotFound(text).message() == "path not found: "@ + text,
        AppErrorView::BadRequest(text).message() == text,
        AppErrorView::Unavailable(text).message() == text,
        AppErrorView::Internal(text).message() == "internal error: "@ + text,
{
}

/// The text about missing objects names each of them, in order and with commas between them.
pub proof fn law_missing_objects_are_named(ids: Seq<ObjectId>, id: ObjectId)
    ensures
        AppErrorView::MissingObjects(Seq::empty()).message() == "objects not in the cache: []"@,
        AppErrorView::MissingObjects(seq![id]).message() == "objects not in the cache: [Sha1("@
            + id.hex() + ")]"@,
        ids.len() > 0 ==> AppErrorView::MissingObjects(ids.push(id)).message()
            == AppErrorView::MissingObjects(ids).message().drop_last() + ", Sha1("@ + id.hex()
            + ")]"@,
{
    reveal_strlit("objects not in the cache: []");
    reveal_strlit("objects not in the cache: [");
    reveal_strlit("objects not in the cache: [Sha1(");
    reveal_strlit("Sha1(");
    reveal_strlit(", Sha1(");
    reveal_strlit(")");
    reveal_strlit("]");
    reveal_strlit(")]");
    reveal_with_fuel(id_list, 2);
    assert(AppErrorView::MissingObjects(Seq::empty()).message()
        =~= "objects not in the cache: []"@);
    assert(AppErrorView::MissingObjects(seq![id]).message() =~= "objects not in the cache: [Sha1("@
        + id.hex() + ")]"@);
    if ids.len() > 0 {
        assert(ids.push(id).drop_last() =~= ids);
        assert(AppErrorView::MissingObjects(ids.push(id)).message()
            =~= AppErrorView::MissingObjects(ids).message().drop_last() + ", Sha1("@ + id.hex()
            + ")]"@);
    }
}

/// An error is seen as what it is, with the text or the ids that it holds.
pub proof fn law_errors_are_seen_as_they_are(text: String, ids: Vec<ObjectId>)
    ensures
        AppError::RefNotFound(text)@ == AppErrorView::RefNotFound(text@),
        AppError::PathNotFound(text)@ == AppErrorView::PathNotFound(text@),
        AppError::BadRequest(text)@ == AppErrorView::BadRequest(text@),
        AppError::Unavailable(text)@ == AppErrorView::Unavailable(text@),
        AppError::Internal(text)@ == AppErrorView::Internal(text@),
        AppError::MissingObjects(ids)@ == AppErrorView::MissingObjects(ids@),
{
}

/// A client is told to try again, after five seconds, exactly if the service is unavailable.
pub proof fn law_only_the_unavailable_is_retried(e: AppErrorView)
    ensures
        e.retry_after() is Some <==> e.status() == 503,
        e.retry_after() matches Some(seconds) ==> seconds == 5,
{
}

} // verus!
