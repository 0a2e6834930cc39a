use fred::error::RedisErrorKind;
use fred::transaction::{EndMarker, Transaction, TransactionOutcome};
use fred::value::RedisValue;

#[test]
fn a_transaction_commits_with_one_result_for_each_command() {
    let mut trx = Transaction::new();
    assert_eq!(trx.len(), 0);
    trx.on_ack(1, &RedisValue::Queued);
    trx.on_ack(2, &RedisValue::Queued);
    trx.on_ack(3, &RedisValue::Queued);
    assert_eq!(trx.len(), 3);
    assert!(!trx.has_failed());
    assert_eq!(trx.end_marker(), EndMarker::Commit);
    let reply = RedisValue::Array(vec![RedisValue::new_ok(), RedisValue::Integer(2), RedisValue::Null]);
    match trx.finish(reply).unwrap() {
        TransactionOutcome::Committed(results) => {
            assert_eq!(results, vec![RedisValue::new_ok(), RedisValue::Integer(2), RedisValue::Null]);
        },
        TransactionOutcome::Aborted => panic!("aborted"),
    }
}

#[test]
fn a_refused_command_aborts_the_transaction_without_results() {
    for refused_at in 0..3 {
        let mut trx = Transaction::new();
        for i in 0..3 {
            if i == refused_at {
                trx.on_ack(i, &RedisValue::from("ERR unknown command"));
            } else {
                trx.on_ack(i, &RedisValue::Queued);
            }
        }
        assert!(trx.has_failed());
        assert_eq!(trx.len(), 2);
        assert_eq!(trx.end_marker(), EndMarker::Abort);
        let reply = RedisValue::Array(vec![RedisValue::new_ok(), RedisValue::new_ok()]);
        assert!(matches!(trx.finish(reply), Ok(TransactionOutcome::Aborted)));
    }
}

#[test]
fn a_refusal_is_anything_but_queued() {
    for ack in [RedisValue::Null, RedisValue::new_ok(), RedisValue::from("QUEUED"), RedisValue::Integer(1)] {
        let mut trx = Transaction::new();
        trx.on_ack(1, &ack);
        assert!(trx.has_failed());
        assert!(matches!(trx.finish(RedisValue::new_ok()), Ok(TransactionOutcome::Aborted)));
    }
}

#[test]
fn a_null_reply_means_that_the_server_aborted() {
    let mut trx = Transaction::new();
    trx.on_ack(1, &RedisValue::Queued);
    assert!(matches!(trx.finish(RedisValue::Null), Ok(TransactionOutcome::Aborted)));
}

#[test]
fn a_reply_of_the_wrong_shape_is_never_a_commit() {
    let mut trx = Transaction::new();
    trx.on_ack(1, &RedisValue::Queued);
    trx.on_ack(2, &RedisValue::Queued);
    let short = RedisValue::Array(vec![RedisValue::new_ok()]);
    assert_eq!(trx.finish(short).unwrap_err().kind(), RedisErrorKind::Protocol);
    let mut trx = Transaction::new();
    trx.on_ack(1, &RedisValue::Queued);
    let long = RedisValue::Array(vec![RedisValue::new_ok(), RedisValue::new_ok()]);
    assert_eq!(trx.finish(long).unwrap_err().kind(), RedisErrorKind::Protocol);
    let mut trx = Transaction::new();
    trx.on_ack(1, &RedisValue::Queued);
    assert_eq!(trx.finish(RedisValue::new_ok()).unwrap_err().kind(), RedisErrorKind::Protocol);
}

#[test]
fn an_empty_transaction_commits_with_no_results() {
    let trx = Transaction::new();
    assert_eq!(trx.end_marker(), EndMarker::Commit);
    match trx.finish(RedisValue::Array(vec![])).unwrap() {
        TransactionOutcome::Committed(results) => assert!(results.is_empty()),
        TransactionOutcome::Aborted => panic!("aborted"),
    }
}
