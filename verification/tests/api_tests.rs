use viscacha::api::{authorize, default_event_limit, default_max_retries, parse_status, tracing_or_print, ApiError};
use viscacha::error::SpaceError;
use viscacha::types::{JobId, JobStatus};

#[test]
fn parse_status_accepts_the_five_names() {
    assert!(matches!(parse_status("pending"), Ok(JobStatus::Pending)));
    assert!(matches!(parse_status("claimed"), Ok(JobStatus::Claimed)));
    assert!(matches!(parse_status("done"), Ok(JobStatus::Done)));
    assert!(matches!(parse_status("failed"), Ok(JobStatus::Failed)));
    assert!(matches!(parse_status("cancelled"), Ok(JobStatus::Cancelled)));
}

#[test]
fn parse_status_rejects_unknown_as_conflict() {
    match parse_status("Pending") {
        Err(ApiError::Conflict(m)) => assert_eq!(m, "unknown status: Pending"),
        other => panic!("unexpected {:?}", other),
    }
}

#[test]
fn status_names_round_trip() {
    for st in [JobStatus::Pending, JobStatus::Claimed, JobStatus::Done, JobStatus::Failed, JobStatus::Cancelled] {
        assert_eq!(parse_status(st.as_str()).unwrap(), st);
    }
}

#[test]
fn space_errors_map_to_http_errors() {
    let nf = ApiError::from(SpaceError::NotFound(JobId("x".into())));
    assert_eq!(nf.status_code(), 404);
    match nf {
        ApiError::NotFound(m) => assert_eq!(m, "job JobId(\"x\") not found"),
        other => panic!("unexpected {:?}", other),
    }
    assert_eq!(ApiError::from(SpaceError::NotPending(JobId("x".into()))).status_code(), 409);
    assert_eq!(ApiError::from(SpaceError::NotClaimed(JobId("x".into()))).status_code(), 409);
    assert_eq!(ApiError::from(SpaceError::LeaseInvalid).status_code(), 409);
    let it = SpaceError::InvalidTransition { from: "done".into(), to: "pending".into() };
    assert_eq!(ApiError::from(it).status_code(), 409);
    match ApiError::from(SpaceError::Io("disk".into())) {
        ApiError::Internal(m) => assert_eq!(m, "storage error: disk"),
        other => panic!("unexpected {:?}", other),
    }
}

#[test]
fn error_messages_quote_ids_like_debug() {
    assert_eq!(SpaceError::NotFound(JobId("a\"b".into())).message(), "job JobId(\"a\\\"b\") not found");
    assert_eq!(SpaceError::NotPending(JobId("q".into())).message(), "job JobId(\"q\") is not in Pending state");
    assert_eq!(SpaceError::NotClaimed(JobId("q".into())).message(), "job JobId(\"q\") is not in Claimed state");
    assert_eq!(SpaceError::LeaseInvalid.message(), "lease has expired or does not match");
    assert_eq!(
        SpaceError::InvalidTransition { from: "done".into(), to: "pending".into() }.message(),
        "invalid state transition: done -> pending"
    );
}

#[test]
fn defaults() {
    assert_eq!(default_max_retries(), 3);
    assert_eq!(default_event_limit(), 1000);
    tracing_or_print(3);
}

#[test]
fn authorization_rules() {
    // public paths
    assert!(authorize("/", Some("k"), None));
    assert!(authorize("/openapi.json", Some("k"), None));
    // no key, or an empty key: open access
    assert!(authorize("/jobs", None, None));
    assert!(authorize("/jobs", Some(""), None));
    // a key: the bearer token must match exactly
    assert!(authorize("/jobs", Some("k"), Some("Bearer k")));
    assert!(!authorize("/jobs", Some("k"), Some("Bearer kk")));
    assert!(!authorize("/jobs", Some("k"), Some("bearer k")));
    assert!(!authorize("/jobs", Some("k"), Some("k")));
    assert!(!authorize("/jobs", Some("k"), None));
    assert!(!authorize("/dashboard", Some("k"), Some("Bearer ")));
}
