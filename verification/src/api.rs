//! The decisions of the HTTP layer that do not need the network: mapping
//! store errors to responses, parsing filters, defaults, and authorization.

use vstd::prelude::*;
use vstd::std_specs::convert::FromSpecImpl;
use crate::error::{SpaceError, error_message};
use crate::text::{concat, str_equal};
use crate::types::{JobStatus, status_name};

verus! {

/// An error as the HTTP layer reports it.
#[derive(Debug)]
pub enum ApiError {
    NotFound(String),
    Conflict(String),
    Internal(String),
}

/// How a store error is reported: a missing job is "not found", an operation
/// refused in the job's current state is a conflict, a storage failure is
/// internal; the message is the error's own.
pub open spec fn api_error_for(e: SpaceError, r: ApiError) -> bool {
    match e {
        SpaceError::NotFound(_) => r matches ApiError::NotFound(m) && m@ == error_message(e),
        SpaceError::Io(_) => r matches ApiError::Internal(m) && m@ == error_message(e),
        _ => r matches ApiError::Conflict(m) && m@ == error_message(e),
    }
}

impl From<SpaceError> for ApiError {
    fn from(e: SpaceError) -> (r: ApiError)
        ensures
            api_error_for(e, r),
    {
        let m = e.message();
        match e {
            SpaceError::NotFound(_) => ApiError::NotFound(m),
            SpaceError::Io(_) => ApiError::Internal(m),
            _ => ApiError::Conflict(m),
        }
    }
}

impl FromSpecImpl<SpaceError> for ApiError {
    /// The message is text computed at run time, so no single value is named
    /// here; `from` states what it returns by `api_error_for`.
    open spec fn obeys_from_spec() -> bool {
        false
    }

    open spec fn from_spec(v: SpaceError) -> ApiError {
        choose|r: ApiError| api_error_for(v, r)
    }
}

impl ApiError {
    /// The HTTP status code the error is answered with.
    pub fn status_code(&self) -> (r: u16)
        ensures
            r == match *self {
                ApiError::NotFound(_) => 404u16,
                ApiError::Conflict(_) => 409u16,
                ApiError::Internal(_) => 500u16,
            },
    {
        match self {
            ApiError::NotFound(_) => 404,
            ApiError::Conflict(_) => 409,
            ApiError::Internal(_) => 500,
        }
    }
}

/// The status named by a filter string, if it names one.
pub open spec fn status_named(s: Seq<char>) -> Option<JobStatus> {
    if s == status_name(JobStatus::Pending) {
        Some(JobStatus::Pending)
    } else if s == status_name(JobStatus::Claimed) {
        Some(JobStatus::Claimed)
    } else if s == status_name(JobStatus::Done) {
        Some(JobStatus::Done)
    } else if s == status_name(JobStatus::Failed) {
        Some(JobStatus::Failed)
    } else if s == status_name(JobStatus::Cancelled) {
        Some(JobStatus::Cancelled)
    } else {
        None
    }
}

/// Law: each status is named by its own lower-case name and by nothing
/// else; the names are `pending`, `claimed`, `done`, `failed`, `cancelled`.
pub proof fn law_status_names_round_trip(st: JobStatus, text: Seq<char>)
    ensures
        status_named(status_name(st)) == Some(st),
        status_named(text) == Some(st) ==> text == status_name(st),
        status_name(JobStatus::Pending) == "pending"@,
        status_name(JobStatus::Claimed) == "claimed"@,
        status_name(JobStatus::Done) == "done"@,
        status_name(JobStatus::Failed) == "failed"@,
        status_name(JobStatus::Cancelled) == "cancelled"@,
{
    reveal_strlit("pending");
    reveal_strlit("claimed");
    reveal_strlit("done");
    reveal_strlit("failed");
    reveal_strlit("cancelled");
    let names = seq!["pending"@, "claimed"@, "done"@, "failed"@, "cancelled"@];
    assert(names[0][0] == 'p' && names[1][0] == 'c' && names[1][1] == 'l' && names[2][0] == 'd'
        && names[3][0] == 'f' && names[4][0] == 'c' && names[4][1] == 'a');
    assert forall|a: int, b: int| 0 <= a < b < 5 implies names[a] != names[b] by {
        if names[a] == names[b] {
            assert(names[a][0] == names[b][0]);
            assert(names[a][1] == names[b][1]);
        }
    }
}

/// Parse a status filter: one of the five lower-case status names; anything
/// else is a conflict naming the unknown status.
pub fn parse_status(s: &str) -> (r: Result<JobStatus, ApiError>)
    ensures
        match status_named(s@) {
            Some(st) => r == Ok::<JobStatus, ApiError>(st),
            None => r matches Err(ApiError::Conflict(m)) && m@ == "unknown status: "@ + s@,
        },
{
    if str_equal(s, "pending") {
        Ok(JobStatus::Pending)
    } else if str_equal(s, "claimed") {
        Ok(JobStatus::Claimed)
    } else if str_equal(s, "done") {
        Ok(JobStatus::Done)
    } else if str_equal(s, "failed") {
        Ok(JobStatus::Failed)
    } else if str_equal(s, "cancelled") {
        Ok(JobStatus::Cancelled)
    } else {
        Err(ApiError::Conflict(concat("unknown status: ", s)))
    }
}

/// Retries allowed when an enqueue request names none.
pub fn default_max_retries() -> (r: u8)
    ensures
        r == 3,
{
    3
}

/// Events returned when an event query names no limit.
pub fn default_event_limit() -> (r: usize)
    ensures
        r == 1000,
{
    1000
}

/// Report how many leases an expiry pass returned. Reporting is not wired to
/// any sink, so this does nothing.
pub fn tracing_or_print(n: usize) {
    let _ = n;
}

/// Paths served without authorization: the UI page and the API description.
pub open spec fn is_public_path(path: Seq<char>) -> bool {
    path == "/"@ || path == "/openapi.json"@
}

/// Whether a request may proceed. Public paths always may; with no key
/// configured (absent or empty) every request may; otherwise the
/// `Authorization` header must be exactly `Bearer ` followed by the key.
pub open spec fn request_allowed(path: Seq<char>, api_key: Option<Seq<char>>, authorization: Option<Seq<char>>) -> bool {
    ||| is_public_path(path)
    ||| !(api_key matches Some(k) && k.len() > 0)
    ||| (api_key matches Some(k) && authorization matches Some(h) && h == "Bearer "@ + k)
}

/// Law: with a key configured, a request to any path but `/` and
/// `/openapi.json` passes exactly when its `Authorization` header is `Bearer `
/// followed by the key (a bare key, or none, is refused); without a key, or
/// with an empty one, and on those two paths, every request passes.
pub proof fn law_authorization_needs_the_bearer_key(path: Seq<char>, key: Seq<char>, header: Option<Seq<char>>)
    ensures
        key.len() > 0 && path != "/"@ && path != "/openapi.json"@ ==>
            (request_allowed(path, Some(key), header) <==> header == Some("Bearer "@ + key)),
        key.len() == 0 ==> request_allowed(path, Some(key), header),
        request_allowed(path, None, header),
        request_allowed("/"@, Some(key), header),
        request_allowed("/openapi.json"@, Some(key), header),
{
}

/// The characters of an optional text.
pub open spec fn text_of(o: Option<&str>) -> Option<Seq<char>> {
    match o {
        Some(s) => Some(s@),
        None => None,
    }
}

/// Decide a request: `api_key` is the configured key, `authorization` the
/// request's `Authorization` header as text (absent when missing or not
/// visible ASCII).
pub fn authorize(path: &str, api_key: Option<&str>, authorization: Option<&str>) -> (r: bool)
    ensures
        r == request_allowed(path@, text_of(api_key), text_of(authorization)),
{
    if str_equal(path, "/") || str_equal(path, "/openapi.json") {
        return true;
    }
    let key = match api_key {
        Some(k) => {
            if k.is_empty() {
                return true;
            }
            k
        },
        None => return true,
    };
    match authorization {
        Some(h) => {
            let expected = concat("Bearer ", key);
            str_equal(h, expected.as_str())
        },
        None => false,
    }
}

/// The body of a request that reports a failed attempt.
pub struct FailBody {
    pub lease_id: String,
    pub error: String,
}

/// The answer to an enqueue request.
pub struct EnqueueResponse {
    pub job_id: String,
}

/// The query of a list request: an optional status filter.
pub struct ListQuery {
    pub status: Option<String>,
}

} // verus!
