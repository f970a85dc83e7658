use eventstore::registry::{
    reply_kind, retry_or_abort, timeout_reached, ImplResult, OperationError, Pkg, Registry, Reply,
    ReplyKind, Step, Tracker, CMD_BAD_REQUEST, CMD_NOT_AUTHENTICATED, CMD_NOT_HANDLED,
};
use eventstore::types::{Endpoint, Error, ErrorKind, IpAddress, SocketAddress};
use std::time::Duration;

const CONN: u128 = 7;

fn pkg(cmd: u8, correlation: u128) -> Pkg {
    Pkg { cmd, correlation, payload: vec![] }
}

fn err() -> Error {
    Error { kind: ErrorKind::Other, message: "boom".to_string() }
}

/// Registers `op` on the connection and records that it issued a request
/// with command 0x82; gives back the correlation id.
fn registered(reg: &mut Registry<&'static str>, op: &'static str, max_retry: usize) -> u128 {
    let (op, correlation) = reg.register(op, Some(CONN)).unwrap();
    reg.issued(op, max_retry, correlation, CONN, Ok(pkg(0x82, correlation))).unwrap();
    correlation
}

#[test]
fn reply_kinds() {
    assert_eq!(reply_kind(CMD_BAD_REQUEST), ReplyKind::BadRequest);
    assert_eq!(reply_kind(CMD_NOT_AUTHENTICATED), ReplyKind::NotAuthenticated);
    assert_eq!(reply_kind(CMD_NOT_HANDLED), ReplyKind::NotHandled);
    assert_eq!(reply_kind(0x83), ReplyKind::Other);
}

#[test]
fn register_without_connection_waits() {
    let mut reg: Registry<&'static str> = Registry::new();
    assert!(reg.register("op", None).is_none());
    assert_eq!(reg.waiting_len(), 1);
    assert_eq!(reg.pending_len(), 0);
    let again: Vec<&str> = reg.check_and_retry(CONN, &Duration::from_secs(1)).waiting.iter().map(|w| w.0).collect();
    assert_eq!(again, vec!["op"]);
    assert_eq!(reg.waiting_len(), 0);
}

#[test]
fn waiting_operations_come_back_latest_first() {
    let mut reg: Registry<&'static str> = Registry::new();
    reg.register("a", None);
    reg.register("b", None);
    reg.register("c", None);
    let again: Vec<&str> = reg.check_and_retry(CONN, &Duration::from_secs(1)).waiting.iter().map(|w| w.0).collect();
    assert_eq!(again, vec!["c", "b", "a"]);
}

#[test]
fn issued_request_is_pending_and_sent() {
    let mut reg: Registry<&'static str> = Registry::new();
    let c = registered(&mut reg, "op", 3);
    assert!(reg.is_pending(c));
    let sent = reg.take_outbox();
    assert_eq!(sent.len(), 1);
    assert_eq!(sent[0].correlation, c);
    assert!(reg.take_outbox().is_empty());
}

#[test]
fn failed_issue_drops_the_operation() {
    let mut reg: Registry<&'static str> = Registry::new();
    let (op, c) = reg.register("op", Some(CONN)).unwrap();
    assert!(reg.issued(op, 3, c, CONN, Err(err())).is_err());
    assert_eq!(reg.pending_len(), 0);
    assert!(reg.take_outbox().is_empty());
}

#[test]
fn unknown_package_is_ignored() {
    let mut reg: Registry<&'static str> = Registry::new();
    let c = registered(&mut reg, "op", 3);
    match reg.handle(c + 1, Reply::NotAuthenticated) {
        Step::Finished(None) => {},
        _ => panic!("unknown package must be ignored"),
    }
    assert!(reg.is_pending(c));
}

#[test]
fn bad_request_fails_the_operation() {
    let mut reg: Registry<&'static str> = Registry::new();
    let c = registered(&mut reg, "op", 3);
    match reg.handle(c, Reply::BadRequest("nope".to_string())) {
        Step::Fail(op, OperationError::ServerError(Some(msg))) => {
            assert_eq!(op, "op");
            assert_eq!(msg, "nope");
        },
        _ => panic!("expected a server error"),
    }
    assert!(!reg.is_pending(c));
}

#[test]
fn not_authenticated_fails_the_operation() {
    let mut reg: Registry<&'static str> = Registry::new();
    let c = registered(&mut reg, "op", 3);
    assert!(matches!(reg.handle(c, Reply::NotAuthenticated), Step::Fail("op", OperationError::AuthenticationRequired)));
    assert_eq!(reg.pending_len(), 0);
}

#[test]
fn not_master_waits_and_reconnects() {
    let mut reg: Registry<&'static str> = Registry::new();
    let c = registered(&mut reg, "op", 3);
    let master = Endpoint { addr: SocketAddress { ip: IpAddress::V4(0x7f000001), port: 1113 } };
    match reg.handle(c, Reply::NotHandled(Ok(Some(master)))) {
        Step::Finished(Some(e)) => assert_eq!(e, master),
        _ => panic!("expected to reconnect"),
    }
    assert_eq!(reg.waiting_len(), 1);
    assert!(!reg.is_pending(c));
}

#[test]
fn unreadable_not_handled_drops_the_request() {
    let mut reg: Registry<&'static str> = Registry::new();
    let c = registered(&mut reg, "op", 3);
    match reg.handle(c, Reply::NotHandled(Err(err()))) {
        Step::Dropped(e) => assert_eq!(e.message, "boom"),
        _ => panic!("expected the request to be dropped with the error"),
    }
    assert_eq!(reg.pending_len(), 0);
    assert_eq!(reg.waiting_len(), 0);
}

#[test]
fn busy_server_retries_until_the_limit() {
    let mut reg: Registry<&'static str> = Registry::new();
    let c = registered(&mut reg, "op", 3);
    reg.take_outbox();
    // First refusal: attempt 0 + 1 < 3, retried.
    let tracker = match reg.handle(c, Reply::NotHandled(Ok(None))) {
        Step::Retry(t, corr) => {
            assert_eq!(corr, c);
            t
        },
        _ => panic!("expected a retry"),
    };
    assert_eq!(tracker.attempts, 0);
    reg.retried(tracker, c, CONN + 1, Ok(pkg(0x82, c))).unwrap();
    assert!(reg.is_pending(c));
    assert_eq!(reg.take_outbox().len(), 1);
    // Second refusal: attempt 1 + 1 < 3, retried.
    let tracker = match reg.handle(c, Reply::NotHandled(Ok(None))) {
        Step::Retry(t, _) => t,
        _ => panic!("expected a retry"),
    };
    assert_eq!(tracker.attempts, 1);
    assert_eq!(tracker.conn_id, CONN + 1);
    reg.retried(tracker, c, CONN, Ok(pkg(0x82, c))).unwrap();
    // Third refusal: attempt 2 + 1 >= 3, aborted.
    assert!(matches!(reg.handle(c, Reply::NotHandled(Ok(None))), Step::Fail("op", OperationError::Aborted)));
    assert_eq!(reg.pending_len(), 0);
}

#[test]
fn failed_retry_drops_the_request() {
    let mut reg: Registry<&'static str> = Registry::new();
    let c = registered(&mut reg, "op", 5);
    reg.take_outbox();
    let tracker = match reg.handle(c, Reply::NotHandled(Ok(None))) {
        Step::Retry(t, _) => t,
        _ => panic!("expected a retry"),
    };
    assert!(reg.retried(tracker, c, CONN, Err(err())).is_err());
    assert_eq!(reg.pending_len(), 0);
    assert!(reg.take_outbox().is_empty());
}

#[test]
fn retry_or_abort_decides_by_attempts() {
    let t = Tracker::new(1, CONN, "op", 1);
    assert!(matches!(retry_or_abort(t, 9), Step::Fail("op", OperationError::Aborted)));
    let t = Tracker::new(1, CONN, "op", 2);
    assert!(matches!(retry_or_abort(t, 9), Step::Retry(_, 9)));
    let t = Tracker::new(1, CONN, "op", 0);
    assert!(matches!(retry_or_abort(t, 9), Step::Fail(_, OperationError::Aborted)));
}

fn respond(reg: &mut Registry<&'static str>, c: u128, outcome: Result<(ImplResult, Option<Pkg>), Error>) -> Step<&'static str> {
    let (tracker, p) = match reg.handle(c, Reply::Other(pkg(0x83, c))) {
        Step::Respond(t, p) => (t, p),
        _ => panic!("expected the operation to read the package"),
    };
    assert_eq!(p.cmd, 0x83);
    reg.responded(tracker, c, p.cmd, CONN, outcome)
}

#[test]
fn operation_done_with_next_request_starts_over() {
    let mut reg: Registry<&'static str> = Registry::new();
    let c = registered(&mut reg, "op", 3);
    reg.take_outbox();
    assert!(matches!(respond(&mut reg, c, Ok((ImplResult::Done, Some(pkg(0x84, c))))), Step::Finished(None)));
    assert!(reg.is_pending(c));
    let sent = reg.take_outbox();
    assert_eq!(sent.len(), 1);
    assert_eq!(sent[0].cmd, 0x84);
}

#[test]
fn operation_done_without_request_is_forgotten() {
    let mut reg: Registry<&'static str> = Registry::new();
    let c = registered(&mut reg, "op", 3);
    assert!(matches!(respond(&mut reg, c, Ok((ImplResult::Done, None))), Step::Finished(None)));
    assert!(!reg.is_pending(c));
    assert!(matches!(reg.handle(c, Reply::NotAuthenticated), Step::Finished(None)));
}

#[test]
fn awaiting_operation_stays_and_never_times_out() {
    let mut reg: Registry<&'static str> = Registry::new();
    let c = registered(&mut reg, "op", 3);
    assert!(matches!(respond(&mut reg, c, Ok((ImplResult::Awaiting, None))), Step::Finished(None)));
    assert!(reg.is_pending(c));
    // On its own connection, a lasting request stays pending whatever the
    // timeout.
    let checked = reg.check_and_retry(CONN, &Duration::from_secs(0));
    assert!(checked.stale.is_empty());
    assert!(checked.expired.is_empty());
    assert!(reg.is_pending(c));
    let back = reg.check_and_retry(CONN + 1, &Duration::from_secs(0));
    assert_eq!(back.stale.len(), 1);
    assert!(back.stale[0].1.lasting);
    assert!(!back.stale[0].1.has_timeout(&Duration::from_secs(0)));
}

#[test]
fn terminate_and_read_error_forget_the_operation() {
    let mut reg: Registry<&'static str> = Registry::new();
    let c = registered(&mut reg, "op", 3);
    assert!(matches!(respond(&mut reg, c, Ok((ImplResult::Terminate, None))), Step::Finished(None)));
    assert!(!reg.is_pending(c));
    let c = registered(&mut reg, "op2", 3);
    match respond(&mut reg, c, Err(err())) {
        Step::Dropped(e) => assert_eq!(e.message, "boom"),
        _ => panic!("expected the read error back"),
    }
    assert!(!reg.is_pending(c));
}

#[test]
fn unexpected_package_fails_with_its_command() {
    let mut reg: Registry<&'static str> = Registry::new();
    let c = registered(&mut reg, "op", 3);
    match respond(&mut reg, c, Ok((ImplResult::Unexpected, None))) {
        Step::Fail("op", OperationError::WrongClientImpl(Some(0x83))) => {},
        _ => panic!("expected a wrong client implementation error"),
    }
}

#[test]
fn operation_asking_retry_is_retried() {
    let mut reg: Registry<&'static str> = Registry::new();
    let c = registered(&mut reg, "op", 3);
    assert!(matches!(respond(&mut reg, c, Ok((ImplResult::Retry, None))), Step::Retry(_, _)));
    let c = registered(&mut reg, "op2", 1);
    assert!(matches!(respond(&mut reg, c, Ok((ImplResult::Retry, None))), Step::Fail("op2", OperationError::Aborted)));
}

#[test]
fn check_and_retry_returns_requests_of_other_connections() {
    let mut reg: Registry<&'static str> = Registry::new();
    let old = registered(&mut reg, "old", 3);
    let (op, same) = reg.register("same", Some(CONN + 1)).unwrap();
    reg.issued(op, 3, same, CONN + 1, Ok(pkg(0x82, same))).unwrap();
    reg.take_outbox();
    let back = reg.check_and_retry(CONN + 1, &Duration::from_secs(3600));
    // The request on the current connection has not timed out: it stays.
    assert_eq!(reg.pending_len(), 1);
    assert!(reg.is_pending(same));
    assert!(back.expired.is_empty());
    assert!(back.waiting.is_empty());
    assert_eq!(back.stale.len(), 1);
    assert_eq!(back.stale[0].0, old);
    assert_eq!(back.stale[0].1.operation, "old");

    // The operation sends its request again under a new correlation id.
    let (_, tracker) = back.stale.into_iter().next().unwrap();
    assert!(reg.connection_dropped(tracker, CONN + 1, Ok(Some(pkg(0x90, 1234)))).is_none());
    assert!(reg.is_pending(1234));
    let sent = reg.take_outbox();
    assert_eq!(sent.len(), 1);
    assert_eq!(sent[0].correlation, 1234);
}

#[test]
fn check_and_retry_expires_timed_out_requests() {
    let mut reg: Registry<&'static str> = Registry::new();
    let fresh = registered(&mut reg, "fresh", 3);
    let last = registered(&mut reg, "last", 1);
    reg.take_outbox();
    let checked = reg.check_and_retry(CONN, &Duration::from_secs(0));
    assert_eq!(reg.pending_len(), 0);
    assert!(checked.stale.is_empty());
    assert_eq!(checked.expired.len(), 2);
    for (k, step) in checked.expired {
        if k == fresh {
            assert!(matches!(step, Step::Retry(ref t, c) if t.operation == "fresh" && c == fresh));
        } else {
            assert_eq!(k, last);
            assert!(matches!(step, Step::Fail("last", OperationError::Aborted)));
        }
    }
}

#[test]
fn check_and_retry_hands_out_waiting_operations() {
    let mut reg: Registry<&'static str> = Registry::new();
    reg.register("a", None);
    reg.register("b", None);
    let checked = reg.check_and_retry(CONN, &Duration::from_secs(1));
    assert_eq!(reg.waiting_len(), 0);
    let ops: Vec<&str> = checked.waiting.iter().map(|(op, _)| *op).collect();
    assert_eq!(ops, vec!["b", "a"]);

    // Each issues its request; one of them fails to.
    let (b, cb) = checked.waiting[0];
    let (a, ca) = checked.waiting[1];
    let errors = reg.issued_all(CONN, vec![(b, 3, cb, Ok(pkg(0x82, cb))), (a, 3, ca, Err(err()))]);
    assert_eq!(errors.len(), 1);
    assert_eq!(errors[0].message, "boom");
    assert!(reg.is_pending(cb));
    assert!(!reg.is_pending(ca));
    let sent = reg.take_outbox();
    assert_eq!(sent.len(), 1);
    assert_eq!(sent[0].correlation, cb);
}

#[test]
fn connections_dropped_handles_every_stale_request() {
    let mut reg: Registry<&'static str> = Registry::new();
    let outcomes = vec![
        (Tracker::new(1, CONN, "again", 3), Ok(Some(pkg(0x90, 55)))),
        (Tracker::new(1, CONN, "gone", 3), Ok(None)),
        (Tracker::new(1, CONN, "broken", 3), Err(err())),
    ];
    let aborted = reg.connections_dropped(CONN + 1, outcomes);
    assert_eq!(aborted.len(), 1);
    assert!(matches!(aborted[0], ("broken", OperationError::Aborted)));
    assert_eq!(reg.pending_len(), 1);
    assert!(reg.is_pending(55));
    let sent = reg.take_outbox();
    assert_eq!(sent.len(), 1);
    assert_eq!(sent[0].cmd, 0x90);
}

#[test]
fn connection_dropped_outcomes() {
    let mut reg: Registry<&'static str> = Registry::new();
    let t = Tracker::new(1, CONN, "op", 3);
    assert!(reg.connection_dropped(t, CONN + 1, Ok(None)).is_none());
    assert_eq!(reg.pending_len(), 0);
    let t = Tracker::new(1, CONN, "op", 3);
    assert!(matches!(reg.connection_dropped(t, CONN + 1, Err(err())), Some(("op", OperationError::Aborted))));
}

#[test]
fn tracker_reuse_and_timeout() {
    let mut t = Tracker::new(3, CONN, "op", 4);
    t.attempts = 2;
    t.lasting = true;
    t.reuse(CONN + 1);
    assert_eq!(t.attempts, 0);
    assert_eq!(t.conn_id, CONN + 1);
    assert!(!t.lasting);
    assert!(t.has_timeout(&Duration::from_secs(0)));
    assert!(!t.has_timeout(&Duration::from_secs(3600)));
    assert!(timeout_reached(false, &Duration::from_secs(2), &Duration::from_secs(1)));
    assert!(!timeout_reached(true, &Duration::from_secs(2), &Duration::from_secs(1)));
    assert!(!timeout_reached(false, &Duration::from_millis(999), &Duration::from_secs(1)));
}

#[test]
fn waiting_operations_can_be_told_to_abort() {
    let mut reg: Registry<String> = Registry::new();
    reg.register("a".to_string(), None);
    for op in reg.waiting_operations().iter_mut() {
        op.push_str(" aborted");
    }
    let again: Vec<String> = reg.check_and_retry(CONN, &Duration::from_secs(1)).waiting.into_iter().map(|w| w.0).collect();
    assert_eq!(again, vec!["a aborted".to_string()]);
}
