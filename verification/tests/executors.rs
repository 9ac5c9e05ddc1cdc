use svckit::database::{database_test_config, DatabaseConfig, DbError, ParamValue};
use svckit::pooled::{
    contains_substr, detect_schema_mismatch, AttemptOutcome, PooledDbClient, PrepareAction,
    StatementCache, StepResult,
};
use svckit::threaded::{claim_reply, make_reply, ThreadedDbClient, WorkReply};

const MISMATCH: &str = "cached plan must not change result type";

fn client() -> PooledDbClient {
    PooledDbClient::new(&database_test_config())
}

#[test]
fn second_call_reuses_cached_statement() {
    let mut c = client();
    let sql = String::from("SELECT * FROM fun_user_list_users($1)");
    assert!(matches!(c.plan_prepare(&sql), PrepareAction::NeedsPrepare));
    c.register_statement(sql.clone(), 41);
    // the repeated request costs no preparation round trip
    assert!(matches!(c.plan_prepare(&sql), PrepareAction::UseCached(41)));
    assert_eq!(c.cache.len(), 1);
    c.register_statement(sql.clone(), 41);
    assert_eq!(c.cache.len(), 1);
}

#[test]
fn cleared_cache_repopulates_transparently() {
    let mut c = client();
    let sql = String::from("SELECT 1");
    c.register_statement(sql.clone(), 7);
    c.clear_cache();
    assert_eq!(c.cache.len(), 0);
    assert!(matches!(c.plan_prepare(&sql), PrepareAction::NeedsPrepare));
    c.register_statement(sql.clone(), 8);
    assert!(matches!(c.plan_prepare(&sql), PrepareAction::UseCached(8)));
}

#[test]
fn mismatch_once_then_success_returns_rows() {
    let mut c = client();
    let sql = String::from("SELECT 1");
    c.register_statement(sql.clone(), 7);
    c.register_statement(String::from("SELECT 2"), 9);

    let first: StepResult<u32> =
        c.apply_outcome(0, AttemptOutcome::QueryFailed(MISMATCH.to_string()), &sql, vec![]);
    assert!(matches!(first, StepResult::Retry));
    // the whole cache is gone, not only the offending entry
    assert_eq!(c.cache.len(), 0);

    let second = c.apply_outcome(1, AttemptOutcome::Rows(vec![11u32, 22, 33]), &sql, vec![]);
    match second {
        StepResult::Done(rows) => assert_eq!(rows, vec![11, 22, 33]),
        _ => panic!("expected the successful rows"),
    }
}

#[test]
fn mismatch_twice_surfaces_error_without_third_attempt() {
    let mut c = client();
    let sql = String::from("SELECT 1");
    let first: StepResult<u32> =
        c.apply_outcome(0, AttemptOutcome::QueryFailed(MISMATCH.to_string()), &sql, vec![]);
    assert!(matches!(first, StepResult::Retry));
    let second: StepResult<u32> =
        c.apply_outcome(1, AttemptOutcome::QueryFailed(MISMATCH.to_string()), &sql, vec![]);
    match second {
        StepResult::Fail(DbError::Query(e)) => assert_eq!(e, MISMATCH),
        _ => panic!("the second failure must surface verbatim"),
    }
}

#[test]
fn non_mismatch_error_propagates_immediately() {
    let mut c = client();
    let sql = String::from("SELECT 1");
    c.register_statement(sql.clone(), 7);
    let r: StepResult<u32> = c.apply_outcome(
        0,
        AttemptOutcome::QueryFailed("syntax error at or near".to_string()),
        &sql,
        vec![],
    );
    assert!(matches!(r, StepResult::Fail(DbError::Query(_))));
    // no invalidation for an ordinary error
    assert_eq!(c.cache.len(), 1);
}

#[test]
fn timeout_and_connectivity_errors_keep_their_context() {
    let mut c = client();
    let sql = String::from("SELECT pg_sleep(100)");
    let bound = vec![ParamValue::Int(100)];
    let r: StepResult<u32> =
        c.apply_outcome(0, AttemptOutcome::ExecuteTimedOut, &sql, bound.clone());
    match r {
        StepResult::Fail(DbError::TimedOutExecuting(stmt, p)) => {
            assert_eq!(stmt, sql);
            assert_eq!(p, bound);
        },
        _ => panic!("expected the execute timeout with its context"),
    }
    let r2: StepResult<u32> = c.apply_outcome(0, AttemptOutcome::PrepareTimedOut, &sql, vec![]);
    assert!(matches!(r2, StepResult::Fail(DbError::TimedOutPreparing)));
    let r3: StepResult<u32> = c.apply_outcome(
        0,
        AttemptOutcome::ConnectFailed("pool exhausted".to_string()),
        &sql,
        vec![],
    );
    assert!(matches!(r3, StepResult::Fail(DbError::Connectivity(_))));
}

#[test]
fn schema_mismatch_signatures_are_detected() {
    assert!(detect_schema_mismatch("error: cache lookup failed for type 12345"));
    assert!(detect_schema_mismatch("cached plan must not change result type"));
    assert!(detect_schema_mismatch("prepared statement \"s1\" does not exist"));
    assert!(!detect_schema_mismatch("syntax error at or near SELECT"));
    assert!(!detect_schema_mismatch(""));
}

#[test]
fn substring_scan_edges() {
    assert!(contains_substr("abc", ""));
    assert!(contains_substr("abc", "abc"));
    assert!(contains_substr("abc", "bc"));
    assert!(!contains_substr("", "a"));
    assert!(!contains_substr("ab", "abc"));
    assert!(!contains_substr("abcb", "bb"));
}

#[test]
fn conn_hash_distinguishes_targets() {
    let a = PooledDbClient::new(&database_test_config());
    let b = PooledDbClient::new(&database_test_config());
    assert_eq!(a.conn_hash(), b.conn_hash());

    let mut other = database_test_config();
    other.host = Some("db.example.test".to_string());
    let c = PooledDbClient::new(&other);
    assert_ne!(a.conn_hash(), c.conn_hash());

    let mut with_port = database_test_config();
    with_port.port = Some(5432);
    let d = PooledDbClient::new(&with_port);
    assert_ne!(a.conn_hash(), d.conn_hash());
}

#[test]
fn test_config_holds_local_development_values() {
    let c: DatabaseConfig = database_test_config();
    assert_eq!(c.user.as_deref(), Some("postgres"));
    assert_eq!(c.password.as_deref(), Some("123456"));
    assert_eq!(c.dbname.as_deref(), Some("red_alert"));
    assert_eq!(c.host.as_deref(), Some("localhost"));
    assert!(c.port.is_none());
}

#[test]
fn threaded_submissions_get_distinct_tickets_in_order() {
    let mut t = ThreadedDbClient::new();
    let t1 = t.submit(String::from("SELECT 1"), vec![]).unwrap();
    let t2 = t.submit(String::from("SELECT 2"), vec![ParamValue::Int(5)]).unwrap();
    assert_ne!(t1, t2);

    let w1 = t.take_next().unwrap();
    let w2 = t.take_next().unwrap();
    assert_eq!(w1.ticket, t1);
    assert_eq!(w1.statement, "SELECT 1");
    assert_eq!(w2.ticket, t2);
    assert_eq!(w2.statement, "SELECT 2");
    assert!(t.take_next().is_none());

    let r1: WorkReply<u32> = make_reply(&w1, Ok(vec![1]));
    let r2: WorkReply<u32> = make_reply(&w2, Ok(vec![2]));
    assert_eq!(claim_reply(t1, r1), Ok(vec![1]));
    assert_eq!(claim_reply(t2, r2), Ok(vec![2]));
}

#[test]
fn full_queue_applies_backpressure() {
    let mut t = ThreadedDbClient::new();
    for i in 0..100 {
        assert!(t.submit(format!("SELECT {}", i), vec![]).is_some());
    }
    assert!(t.submit(String::from("SELECT overflow"), vec![]).is_none());
    let _ = t.take_next();
    assert!(t.submit(String::from("SELECT fits-again"), vec![]).is_some());
}
