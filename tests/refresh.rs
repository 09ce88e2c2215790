use catalog_mirror::error::{ErrorClass, FetchError, QueryError, RefreshError, ServiceError};
use catalog_mirror::refresh::{Coordinator, Step, DEFAULT_TTL_MS};

#[test]
fn first_request_refreshes() {
    let c = Coordinator::new(DEFAULT_TTL_MS);
    assert_eq!(c.last_refresh, None);
    assert!(c.is_stale(0));
    assert_eq!(c.begin(0), Step::Refresh);
}

#[test]
fn back_to_back_requests_fetch_once() {
    let mut c = Coordinator::new(DEFAULT_TTL_MS);
    let mut fetches = 0;
    for now in [1000u64, 1000, 1000, 1500] {
        if c.begin(now) == Step::Refresh {
            fetches += 1;
            assert!(c.finish_refresh(Ok(()), now).is_ok());
        }
    }
    assert_eq!(fetches, 1);
    assert_eq!(c.last_refresh, Some(1000));
}

#[test]
fn requests_beyond_ttl_fetch_twice() {
    let mut c = Coordinator::new(300_000);
    let mut fetches = 0;
    for now in [1000u64, 301_001] {
        if c.begin(now) == Step::Refresh {
            fetches += 1;
            assert!(c.finish_refresh(Ok(()), now).is_ok());
        }
    }
    assert_eq!(fetches, 2);
}

#[test]
fn fresh_for_exactly_the_ttl() {
    let mut c = Coordinator::new(300_000);
    assert!(c.finish_refresh(Ok(()), 1000).is_ok());
    assert_eq!(c.begin(301_000), Step::Query);
    assert_eq!(c.begin(301_001), Step::Refresh);
}

#[test]
fn failed_fetch_leaves_state_and_retries() {
    let mut c = Coordinator::new(300_000);
    assert!(c.finish_refresh(Ok(()), 1000).is_ok());
    let before = c;
    let err = RefreshError::Fetch(FetchError::Unavailable("connection refused".to_string()));
    let r = c.finish_refresh(Err(err), 400_000);
    let e = r.unwrap_err();
    assert_eq!(e.class, ErrorClass::Internal);
    assert_eq!(e.status_code(), 500);
    assert_eq!(e.message, "connection refused");
    assert_eq!(c, before);
    assert_eq!(c.begin(400_001), Step::Refresh);
}

#[test]
fn failed_decode_and_store_are_internal() {
    let mut c = Coordinator::new(10);
    let e = c.finish_refresh(Err(RefreshError::Fetch(FetchError::Decode("bad".to_string()))), 5);
    assert_eq!(e.unwrap_err().class, ErrorClass::Internal);
    let e = c.finish_refresh(Err(RefreshError::Store("disk".to_string())), 6);
    assert_eq!(e.unwrap_err().message, "disk");
    assert_eq!(c.last_refresh, None);
}

#[test]
fn bad_sql_is_a_caller_error() {
    let mut c = Coordinator::new(300_000);
    assert!(c.finish_refresh(Ok(()), 1000).is_ok());
    let before = c;
    let msg = "near \"SELEKT\": syntax error".to_string();
    let r: Result<Vec<u8>, ServiceError> = c.finish_query(Err(QueryError::Syntax(msg.clone())));
    let e = r.unwrap_err();
    assert_eq!(e.class, ErrorClass::Caller);
    assert_eq!(e.status_code(), 400);
    assert_eq!(e.message, msg);
    assert_eq!(c, before);
    assert_eq!(c.begin(2000), Step::Query);
}

#[test]
fn execution_error_is_a_caller_error_and_io_is_internal() {
    let c = Coordinator::new(1);
    let r: Result<(), ServiceError> = c.finish_query(Err(QueryError::Execution("mismatch".to_string())));
    assert_eq!(r.unwrap_err().class, ErrorClass::Caller);
    let r: Result<(), ServiceError> = c.finish_query(Err(QueryError::StoreIo("no file".to_string())));
    assert_eq!(r.unwrap_err().status_code(), 500);
}

#[test]
fn successful_query_passes_through() {
    let c = Coordinator::new(1);
    let r = c.finish_query(Ok(vec![1u8, 2]));
    assert_eq!(r.unwrap(), vec![1u8, 2]);
}

#[test]
fn service_error_constructors() {
    assert_eq!(ServiceError::user("x".to_string()).status_code(), 400);
    assert_eq!(ServiceError::internal("y".to_string()).status_code(), 500);
}
