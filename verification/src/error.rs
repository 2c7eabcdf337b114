use vstd::prelude::*;
use crate::text::concat;
use crate::types::JobId;

verus! {

/// Why an operation on the job store was refused.
#[derive(Debug)]
pub enum SpaceError {
    NotFound(JobId),
    NotPending(JobId),
    NotClaimed(JobId),
    LeaseInvalid,
    InvalidTransition { from: String, to: String },
    Io(String),
}

/// The text that `{:?}` gives for a string: the string in double quotes, with
/// quotes, backslashes and control characters escaped.
pub uninterp spec fn debug_quoted(s: Seq<char>) -> Seq<char>;

/// Calls std's `Debug` formatting of a `str` (through `format!("{:?}", ..)`).
/// The result depends on the characters alone and is named `debug_quoted`.
#[verifier::external_body]
fn debug_string(s: &str) -> (r: String)
    ensures
        r@ == debug_quoted(s@),
{
    format!("{:?}", s)
}

/// How a job id is printed in messages: `JobId("...")`.
pub open spec fn job_id_text(id: JobId) -> Seq<char> {
    "JobId("@ + debug_quoted(id.0@) + ")"@
}

/// The human-readable message of an error.
pub open spec fn error_message(e: SpaceError) -> Seq<char> {
    match e {
        SpaceError::NotFound(id) => "job "@ + job_id_text(id) + " not found"@,
        SpaceError::NotPending(id) => "job "@ + job_id_text(id) + " is not in Pending state"@,
        SpaceError::NotClaimed(id) => "job "@ + job_id_text(id) + " is not in Claimed state"@,
        SpaceError::LeaseInvalid => "lease has expired or does not match"@,
        SpaceError::InvalidTransition { from, to } => "invalid state transition: "@ + from@
            + " -> "@ + to@,
        SpaceError::Io(m) => "storage error: "@ + m@,
    }
}

fn job_id_message(id: &JobId, tail: &str) -> (r: String)
    ensures
        r@ == "job "@ + job_id_text(*id) + tail@,
{
    let q = debug_string(id.0.as_str());
    let a = concat("job JobId(", q.as_str());
    let b = concat(a.as_str(), ")");
    let r = concat(b.as_str(), tail);
    proof {
        reveal_strlit("job JobId(");
        reveal_strlit("job ");
        reveal_strlit("JobId(");
        assert(r@ =~= "job "@ + job_id_text(*id) + tail@);
    }
    r
}

impl SpaceError {
    /// The human-readable message of this error.
    pub fn message(&self) -> (r: String)
        ensures
            r@ == error_message(*self),
    {
        match self {
            SpaceError::NotFound(id) => job_id_message(id, " not found"),
            SpaceError::NotPending(id) => job_id_message(id, " is not in Pending state"),
            SpaceError::NotClaimed(id) => job_id_message(id, " is not in Claimed state"),
            SpaceError::LeaseInvalid => "lease has expired or does not match".to_owned(),
            SpaceError::InvalidTransition { from, to } => {
                let a = concat("invalid state transition: ", from.as_str());
                let b = concat(a.as_str(), " -> ");
                let r = concat(b.as_str(), to.as_str());
                assert(r@ =~= "invalid state transition: "@ + from@ + " -> "@ + to@);
                r
            },
            SpaceError::Io(m) => concat("storage error: ", m.as_str()),
        }
    }
}

} // verus!
