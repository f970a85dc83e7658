//! The registry of operations waiting for an answer from the server.
//!
//! Each request that an operation sends carries a correlation id; the
//! registry remembers, per correlation id, a tracker holding the operation
//! and decides what happens when a package with that id arrives, when the
//! connection changes and when an operation has to be retried. What an
//! operation does with a package is its own business: the registry hands the
//! operation out in a [`Step`], the caller performs the step and reports the
//! outcome back.

use vstd::prelude::*;
use std::collections::HashMap;
use vstd::std_specs::iter::IteratorSpec;
use std::time::{Duration, Instant};
use crate::external::{duration_as_nanos, duration_nanos, elapsed, fresh_uuid, now};
use crate::types::{Endpoint, Error};

verus! {

broadcast use vstd::std_specs::hash::group_hash_axioms;

/// Command bytes of the packages the registry tells apart.
pub const CMD_BAD_REQUEST: u8 = 0xF0;
pub const CMD_NOT_HANDLED: u8 = 0xF1;
pub const CMD_NOT_AUTHENTICATED: u8 = 0xF4;

/// A package exchanged with the server.
#[derive(Clone, Debug)]
pub struct Pkg {
    pub cmd: u8,
    pub correlation: u128,
    pub payload: Vec<u8>,
}

/// Why an operation was ended by the client.
#[derive(Clone, Debug)]
pub enum OperationError {
    ServerError(Option<String>),
    AuthenticationRequired,
    Aborted,
    InvalidOperation(String),
    WrongClientImpl(Option<u8>),
}

impl OperationError {
    pub fn wrong_client_impl_on_cmd(cmd: u8) -> (r: OperationError)
        ensures
            r == OperationError::WrongClientImpl(Some(cmd)),
    {
        OperationError::WrongClientImpl(Some(cmd))
    }
}

/// What an operation says after reading a package.
#[derive(Copy, Clone, Debug, PartialEq, Eq, Structural)]
pub enum ImplResult {
    Retry,
    Done,
    Awaiting,
    Terminate,
    Unexpected,
}

/// The kinds of packages the registry tells apart by their command byte.
#[derive(Copy, Clone, Debug, PartialEq, Eq, Structural)]
pub enum ReplyKind {
    BadRequest,
    NotAuthenticated,
    NotHandled,
    Other,
}

/// The kind a command byte stands for.
pub open spec fn reply_kind_of(cmd: u8) -> ReplyKind {
    if cmd == CMD_BAD_REQUEST {
        ReplyKind::BadRequest
    } else if cmd == CMD_NOT_AUTHENTICATED {
        ReplyKind::NotAuthenticated
    } else if cmd == CMD_NOT_HANDLED {
        ReplyKind::NotHandled
    } else {
        ReplyKind::Other
    }
}

/// Tells which kind of package a command byte announces, and so what has to
/// be read from its payload before the registry handles it.
pub fn reply_kind(cmd: u8) -> (r: ReplyKind)
    ensures
        r == reply_kind_of(cmd),
{
    if cmd == CMD_BAD_REQUEST {
        ReplyKind::BadRequest
    } else if cmd == CMD_NOT_AUTHENTICATED {
        ReplyKind::NotAuthenticated
    } else if cmd == CMD_NOT_HANDLED {
        ReplyKind::NotHandled
    } else {
        ReplyKind::Other
    }
}

/// A package from the server, with what its payload says where the registry
/// needs it.
#[derive(Debug)]
pub enum Reply {
    /// The server rejected the request; the payload's text.
    BadRequest(String),
    /// The request needs authentication.
    NotAuthenticated,
    /// The server did not handle the request: the master node to reconnect
    /// to, none when the server was busy, or why the payload could not be
    /// read.
    NotHandled(Result<Option<Endpoint>, Error>),
    /// Any other package, for the operation to read.
    Other(Pkg),
}

/// A request in flight and the operation it belongs to.
pub struct Tracker<O> {
    pub cmd: u8,
    pub attempts: usize,
    pub started: Instant,
    pub lasting: bool,
    pub conn_id: u128,
    pub max_retry: usize,
    pub operation: O,
}

impl<O> Tracker<O> {
    /// A tracker has been retried fewer times than its operation allows.
    pub open spec fn attempts_allowed(&self) -> bool {
        self.attempts == 0 || self.attempts < self.max_retry
    }

    /// A fresh tracker for a request with command `cmd` sent on connection
    /// `conn_id`, for an operation that may be retried `max_retry` times.
    pub fn new(cmd: u8, conn_id: u128, operation: O, max_retry: usize) -> (t: Tracker<O>)
        ensures
            t.cmd == cmd,
            t.attempts == 0,
            !t.lasting,
            t.conn_id == conn_id,
            t.max_retry == max_retry,
            t.operation == operation,
    {
        Tracker { cmd, attempts: 0, started: now(), lasting: false, conn_id, max_retry, operation }
    }

    /// Starts the tracker over on connection `conn_id`.
    pub fn reuse(&mut self, conn_id: u128)
        ensures
            final(self).attempts == 0,
            final(self).conn_id == conn_id,
            !final(self).lasting,
            final(self).cmd == old(self).cmd,
            final(self).max_retry == old(self).max_retry,
            final(self).operation == old(self).operation,
    {
        self.attempts = 0;
        self.started = now();
        self.conn_id = conn_id;
        self.lasting = false;
    }

    /// Whether the request has waited at least `timeout`: there is a time
    /// that passed since the request started (read from the clock) such that
    /// the request is not lasting and that time reaches `timeout`. A request
    /// the server keeps answering never times out; any other request has
    /// reached a zero timeout.
    pub fn has_timeout(&self, timeout: &Duration) -> (r: bool)
        ensures
            exists|passed: Duration| r == #[trigger] timed_out(self.lasting, passed, *timeout),
            r ==> !self.lasting,
            !self.lasting && duration_nanos(*timeout) == 0 ==> r,
    {
        let waited = elapsed(&self.started);
        let r = timeout_reached(self.lasting, &waited, timeout);
        assert(r == timed_out(self.lasting, waited, *timeout));
        r
    }
}

/// A request that is not lasting and has waited `passed` has reached
/// `timeout` once `passed` is at least `timeout`.
pub open spec fn timed_out(lasting: bool, passed: Duration, timeout: Duration) -> bool {
    !lasting && duration_nanos(passed) >= duration_nanos(timeout)
}

/// Waiting longer never undoes a timeout, and a request that is not lasting
/// has timed out exactly when the time it waited reaches the timeout,
/// whatever the timeout is.
pub proof fn lemma_timeout_by_time_waited(lasting: bool, p: Duration, q: Duration, timeout: Duration)
    ensures
        !lasting ==> (timed_out(lasting, p, timeout) <==> duration_nanos(p) >= duration_nanos(timeout)),
        lasting ==> !timed_out(lasting, p, timeout),
        timed_out(lasting, p, timeout) && duration_nanos(q) >= duration_nanos(p) ==> timed_out(
            lasting,
            q,
            timeout,
        ),
{
}

/// Whether a request that has waited `waited` has timed out after `timeout`:
/// never while it is lasting, otherwise once `waited` reaches `timeout`.
pub fn timeout_reached(lasting: bool, waited: &Duration, timeout: &Duration) -> (r: bool)
    ensures
        r == (!lasting && duration_nanos(*waited) >= duration_nanos(*timeout)),
{
    !lasting && duration_as_nanos(waited) >= duration_as_nanos(timeout)
}

/// What the caller has to do next with the package being handled.
pub enum Step<O> {
    /// Nothing more: the endpoint to reconnect to, if any.
    Finished(Option<Endpoint>),
    /// The request is no longer tracked because what the server or the
    /// operation said could not be read: the error, for the caller to report.
    Dropped(Error),
    /// Report the error to the operation, which is no longer tracked.
    Fail(O, OperationError),
    /// Give the package to the tracker's operation and report what it says
    /// with [`Registry::responded`].
    Respond(Tracker<O>, Pkg),
    /// Have the tracker's operation issue its request again under the given
    /// correlation id and report the new package with [`Registry::retried`].
    Retry(Tracker<O>, u128),
}

/// The step for a request that has to be retried: aborted once the next
/// attempt would reach what the operation allows, retried otherwise.
pub open spec fn retry_step<O>(t: Tracker<O>, correlation: u128) -> Step<O> {
    if t.attempts + 1 >= t.max_retry {
        Step::Fail(t.operation, OperationError::Aborted)
    } else {
        Step::Retry(t, correlation)
    }
}

/// A request is retried, under the same correlation id and with the same
/// tracker, exactly when one more attempt stays below what its operation
/// allows; otherwise its operation is aborted. In particular an operation
/// that allows `usize::MAX` retries is retried whatever number of attempts a
/// tracker can count short of that.
pub proof fn lemma_retry_or_abort<O>(t: Tracker<O>, correlation: u128)
    ensures
        (retry_step(t, correlation) is Retry) <==> t.attempts + 1 < t.max_retry,
        t.attempts + 1 < t.max_retry ==> retry_step(t, correlation) == Step::Retry(t, correlation),
        t.attempts + 1 >= t.max_retry ==> retry_step(t, correlation) == Step::<O>::Fail(
            t.operation,
            OperationError::Aborted,
        ),
        t.max_retry == usize::MAX && t.attempts + 1 < usize::MAX ==> retry_step(
            t,
            correlation,
        ) is Retry,
{
}

/// One attempt more never turns an abort into a retry: once a tracker's
/// attempts reach what its operation allows, every later count aborts too.
pub proof fn lemma_abort_is_final<O>(t: Tracker<O>, u: Tracker<O>, correlation: u128)
    requires
        u.max_retry == t.max_retry,
        u.attempts >= t.attempts,
        retry_step(t, correlation) is Fail,
    ensures
        retry_step(u, correlation) is Fail,
{
}

/// Decides whether a request is retried or its operation aborted.
pub fn retry_or_abort<O>(t: Tracker<O>, correlation: u128) -> (s: Step<O>)
    ensures
        s == retry_step(t, correlation),
        s matches Step::Retry(t2, _) ==> t2.attempts + 1 < t2.max_retry,
        t.attempts + 1 < t.max_retry ==> s == Step::Retry(t, correlation),
        t.attempts + 1 >= t.max_retry ==> s == Step::<O>::Fail(t.operation, OperationError::Aborted),
{
    if t.attempts >= t.max_retry || t.max_retry - t.attempts <= 1 {
        Step::Fail(t.operation, OperationError::Aborted)
    } else {
        Step::Retry(t, correlation)
    }
}

/// What the operations of requests sent on an earlier connection said, in
/// order: each tracker with the request it wants sent again, if any, or the
/// error it ran into.
pub type DropOutcomes<O> = Seq<(Tracker<O>, Result<Option<Pkg>, Error>)>;

/// The operations among `outcomes` that ran into an error, in order, each to
/// be told it was aborted.
pub open spec fn aborted_after_drop<O>(outcomes: DropOutcomes<O>) -> Seq<(O, OperationError)>
    decreases outcomes.len(),
{
    if outcomes.len() == 0 {
        Seq::empty()
    } else {
        let rest = aborted_after_drop(outcomes.drop_last());
        match outcomes.last().1 {
            Err(_) => rest.push((outcomes.last().0.operation, OperationError::Aborted)),
            Ok(_) => rest,
        }
    }
}

/// The requests among `outcomes` to send again, in order.
pub open spec fn resent_after_drop<O>(outcomes: DropOutcomes<O>) -> Seq<Pkg>
    decreases outcomes.len(),
{
    if outcomes.len() == 0 {
        Seq::empty()
    } else {
        let rest = resent_after_drop(outcomes.drop_last());
        match outcomes.last().1 {
            Ok(Some(pkg)) => rest.push(pkg),
            _ => rest,
        }
    }
}

/// The index of the last outcome in `outcomes` that sends a request again
/// under correlation id `k`, or -1 when none does.
pub open spec fn last_resent<O>(outcomes: DropOutcomes<O>, k: u128) -> int
    decreases outcomes.len(),
{
    if outcomes.len() == 0 {
        -1
    } else {
        match outcomes.last().1 {
            Ok(Some(pkg)) => if pkg.correlation == k {
                outcomes.len() - 1
            } else {
                last_resent(outcomes.drop_last(), k)
            },
            _ => last_resent(outcomes.drop_last(), k),
        }
    }
}

/// Tracker `t` starts over on connection `conn_id` for the request that
/// `outcome` sends again.
pub open spec fn renewed<O>(
    t: Tracker<O>,
    outcome: (Tracker<O>, Result<Option<Pkg>, Error>),
    conn_id: u128,
) -> bool {
    &&& outcome.1 matches Ok(Some(pkg))
    &&& t.cmd == pkg.cmd
    &&& t.attempts == 0
    &&& !t.lasting
    &&& t.conn_id == conn_id
    &&& t.max_retry == outcome.0.max_retry
    &&& t.operation == outcome.0.operation
}

proof fn lemma_last_resent_range<O>(outcomes: DropOutcomes<O>, k: u128)
    ensures
        -1 <= last_resent(outcomes, k) < outcomes.len(),
        last_resent(outcomes, k) >= 0 ==> (outcomes[last_resent(outcomes, k)].1 matches Ok(
            Some(pkg),
        ) && pkg.correlation == k),
    decreases outcomes.len(),
{
    if outcomes.len() > 0 {
        lemma_last_resent_range(outcomes.drop_last(), k);
    }
}

/// What waiting operations did when asked to issue their requests, in
/// order: each operation with the number of times it may be retried, the
/// correlation id it was given, and the request it issued or the error it
/// ran into.
pub type IssueOutcomes<O> = Seq<(O, usize, u128, Result<Pkg, Error>)>;

/// The errors among `outcomes`, in order.
pub open spec fn issue_errors<O>(outcomes: IssueOutcomes<O>) -> Seq<Error>
    decreases outcomes.len(),
{
    if outcomes.len() == 0 {
        Seq::empty()
    } else {
        let rest = issue_errors(outcomes.drop_last());
        match outcomes.last().3 {
            Err(e) => rest.push(e),
            Ok(_) => rest,
        }
    }
}

/// The requests among `outcomes`, in order.
pub open spec fn issue_sent<O>(outcomes: IssueOutcomes<O>) -> Seq<Pkg>
    decreases outcomes.len(),
{
    if outcomes.len() == 0 {
        Seq::empty()
    } else {
        let rest = issue_sent(outcomes.drop_last());
        match outcomes.last().3 {
            Ok(pkg) => rest.push(pkg),
            Err(_) => rest,
        }
    }
}

/// The index of the last outcome in `outcomes` that issued a request under
/// correlation id `k`, or -1 when none did.
pub open spec fn last_issued<O>(outcomes: IssueOutcomes<O>, k: u128) -> int
    decreases outcomes.len(),
{
    if outcomes.len() == 0 {
        -1
    } else if outcomes.last().3 is Ok && outcomes.last().2 == k {
        outcomes.len() - 1
    } else {
        last_issued(outcomes.drop_last(), k)
    }
}

/// Tracker `t` is the fresh tracker, on connection `conn_id`, of the request
/// that `outcome` issued.
pub open spec fn registered<O>(
    t: Tracker<O>,
    outcome: (O, usize, u128, Result<Pkg, Error>),
    conn_id: u128,
) -> bool {
    &&& outcome.3 matches Ok(pkg)
    &&& t.cmd == pkg.cmd
    &&& t.attempts == 0
    &&& !t.lasting
    &&& t.conn_id == conn_id
    &&& t.max_retry == outcome.1
    &&& t.operation == outcome.0
}

proof fn lemma_last_issued_range<O>(outcomes: IssueOutcomes<O>, k: u128)
    ensures
        -1 <= last_issued(outcomes, k) < outcomes.len(),
        last_issued(outcomes, k) >= 0 ==> (outcomes[last_issued(outcomes, k)].3 is Ok
            && outcomes[last_issued(outcomes, k)].2 == k),
    decreases outcomes.len(),
{
    if outcomes.len() > 0 {
        lemma_last_issued_range(outcomes.drop_last(), k);
    }
}

/// Every request in `pending` waits on connection `conn_id`.
pub open spec fn on_connection<O>(pending: Map<u128, Tracker<O>>, conn_id: u128) -> bool {
    forall|k: u128| #[trigger] pending.contains_key(k) ==> pending[k].conn_id == conn_id
}

/// What a check of the pending requests on a connection found: see
/// [`Registry::check_and_retry`].
pub struct Checked<O> {
    /// Requests sent on another connection, with their correlation ids.
    pub stale: Vec<(u128, Tracker<O>)>,
    /// Requests on the connection that timed out, with their correlation
    /// ids and what to do with each.
    pub expired: Vec<(u128, Step<O>)>,
    /// The operations that waited for a connection, the latest first, each
    /// with the correlation id to issue its request under.
    pub waiting: Vec<(O, u128)>,
    /// The requests on the connection that are not lasting, each with its
    /// correlation id and how long it had waited when checked, as read from
    /// the clock: those that had waited at least the timeout expired.
    pub waited: Vec<(u128, Duration)>,
}

/// The registry: the requests waiting for an answer, keyed by correlation
/// id, the operations waiting for a connection, and the packages to send.
pub struct Registry<O> {
    pendings: HashMap<u128, Tracker<O>>,
    awaiting: Vec<O>,
    outbox: Vec<Pkg>,
}

impl<O> Registry<O> {
    /// The requests waiting for an answer.
    pub closed spec fn pending(&self) -> Map<u128, Tracker<O>> {
        self.pendings@
    }

    /// The operations waiting for a connection, in the order they came.
    pub closed spec fn waiting(&self) -> Seq<O> {
        self.awaiting@
    }

    /// The packages to send, in order.
    pub closed spec fn to_send(&self) -> Seq<Pkg> {
        self.outbox@
    }

    /// Every pending request has been retried fewer times than its operation
    /// allows.
    pub open spec fn inv(&self) -> bool {
        forall|k: u128| #[trigger] self.pending().contains_key(k) ==> self.pending()[k].attempts_allowed()
    }

    pub fn new() -> (r: Registry<O>)
        ensures
            r.pending() == Map::<u128, Tracker<O>>::empty(),
            r.waiting() == Seq::<O>::empty(),
            r.to_send() == Seq::<Pkg>::empty(),
            r.inv(),
    {
        Registry { pendings: HashMap::new(), awaiting: Vec::new(), outbox: Vec::new() }
    }

    /// The number of requests waiting for an answer.
    pub fn pending_len(&self) -> (r: usize)
        ensures
            r == self.pending().len(),
    {
        self.pendings.len()
    }

    /// Whether a request with correlation id `correlation` waits for an
    /// answer.
    pub fn is_pending(&self, correlation: u128) -> (r: bool)
        ensures
            r == self.pending().contains_key(correlation),
    {
        self.pendings.contains_key(&correlation)
    }

    /// The number of operations waiting for a connection.
    pub fn waiting_len(&self) -> (r: usize)
        ensures
            r == self.waiting().len(),
    {
        self.awaiting.len()
    }

    /// The operations waiting for a connection, for the caller to report an
    /// abort to each of them; they keep waiting.
    pub fn waiting_operations(&mut self) -> (r: &mut Vec<O>)
        ensures
            r@ == old(self).waiting(),
            final(self).waiting() == final(r)@,
            final(self).pending() == old(self).pending(),
            final(self).to_send() == old(self).to_send(),
    {
        &mut self.awaiting
    }

    /// Checks the pending requests on connection `conn_id`, and hands out the
    /// operations waiting for a connection.
    ///
    /// Requests sent on another connection come back in `stale`, for their
    /// operations to say what to send again (see
    /// [`Registry::connection_dropped`]). Requests on `conn_id` that have
    /// waited `timeout` (lasting ones never do) come back in `expired`, each
    /// with its retry-or-abort step; the other requests on `conn_id` stay
    /// pending as they are. Each of these groups comes in no particular
    /// order. The waiting operations come back in `waiting`, the latest
    /// first, each with a fresh correlation id under which to issue its
    /// request on `conn_id` (see [`Registry::issued`]); none waits any
    /// longer.
    pub fn check_and_retry(&mut self, conn_id: u128, timeout: &Duration) -> (r: Checked<O>)
        ensures
            on_connection(final(self).pending(), conn_id),
            forall|i: int|
                0 <= i < r.waited@.len() ==> {
                    let k = #[trigger] r.waited@[i].0;
                    &&& old(self).pending().contains_key(k)
                    &&& old(self).pending()[k].conn_id == conn_id
                    &&& !old(self).pending()[k].lasting
                    &&& (duration_nanos(r.waited@[i].1) >= duration_nanos(*timeout)
                        <==> !final(self).pending().contains_key(k))
                },
            forall|k: u128|
                #[trigger] old(self).pending().contains_key(k) && old(self).pending()[k].conn_id
                    == conn_id && !old(self).pending()[k].lasting ==> exists|i: int|
                    0 <= i < r.waited@.len() && r.waited@[i].0 == k,
            old(self).inv() ==> final(self).inv(),
            final(self).to_send() == old(self).to_send(),
            final(self).waiting() == Seq::<O>::empty(),
            r.waiting@.len() == old(self).waiting().len(),
            forall|i: int|
                0 <= i < r.waiting@.len() ==> #[trigger] r.waiting@[i].0 == old(self).waiting().reverse()[i],
            forall|i: int|
                0 <= i < r.stale@.len() ==> {
                    &&& old(self).pending().contains_key(#[trigger] r.stale@[i].0)
                    &&& old(self).pending()[r.stale@[i].0] == r.stale@[i].1
                    &&& r.stale@[i].1.conn_id != conn_id
                },
            forall|i: int, j: int| 0 <= i < j < r.stale@.len() ==> r.stale@[i].0 != r.stale@[j].0,
            forall|k: u128|
                #[trigger] old(self).pending().contains_key(k) && old(self).pending()[k].conn_id
                    != conn_id ==> exists|i: int| 0 <= i < r.stale@.len() && r.stale@[i].0 == k,
            forall|k: u128|
                #[trigger] final(self).pending().contains_key(k) ==> {
                    &&& old(self).pending().contains_key(k)
                    &&& old(self).pending()[k].conn_id == conn_id
                    &&& final(self).pending()[k] == old(self).pending()[k]
                },
            forall|i: int|
                0 <= i < r.expired@.len() ==> {
                    let k = #[trigger] r.expired@[i].0;
                    &&& old(self).pending().contains_key(k)
                    &&& old(self).pending()[k].conn_id == conn_id
                    &&& !old(self).pending()[k].lasting
                    &&& r.expired@[i].1 == retry_step(old(self).pending()[k], k)
                    &&& !final(self).pending().contains_key(k)
                },
            forall|i: int, j: int|
                0 <= i < j < r.expired@.len() ==> r.expired@[i].0 != r.expired@[j].0,
            forall|k: u128|
                #[trigger] old(self).pending().contains_key(k) && old(self).pending()[k].conn_id
                    == conn_id ==> final(self).pending().contains_key(k) || exists|i: int|
                    0 <= i < r.expired@.len() && r.expired@[i].0 == k,
            forall|k: u128|
                #[trigger] old(self).pending().contains_key(k) && old(self).pending()[k].conn_id
                    == conn_id && old(self).pending()[k].lasting ==> final(self).pending().contains_key(k),
            duration_nanos(*timeout) == 0 ==> forall|k: u128|
                #[trigger] old(self).pending().contains_key(k) && old(self).pending()[k].conn_id
                    == conn_id && !old(self).pending()[k].lasting ==> !final(self).pending().contains_key(k),
    {
        let ghost orig = self.pendings@;
        let ghost all = vstd::std_specs::hash::spec_keys_iter(&self.pendings).remaining();
        let mut keys: Vec<u128> = Vec::new();
        for k in it: self.pendings.keys()
            invariant
                it.seq() == all,
                keys@ == all.unref().take(it.index()),
        {
            keys.push(*k);
            assert(keys@ =~= all.unref().take(it.index() + 1));
        }
        proof {
            assert(keys@ =~= all.unref());
            assert(keys@.no_duplicates()) by {
                assert forall|a: int, b: int| 0 <= a < keys@.len() && 0 <= b < keys@.len() && a
                    != b implies keys@[a] != keys@[b] by {
                    assert(all[a] != all[b]);
                }
            }
            assert(keys@.to_set() == orig.dom());
        }
        let mut rest: HashMap<u128, Tracker<O>> = HashMap::new();
        std::mem::swap(&mut rest, &mut self.pendings);
        let mut stale: Vec<(u128, Tracker<O>)> = Vec::new();
        let mut expired: Vec<(u128, Step<O>)> = Vec::new();
        let mut waited: Vec<(u128, Duration)> = Vec::new();
        let mut i: usize = 0;
        while i < keys.len()
            invariant
                i <= keys@.len(),
                keys@.no_duplicates(),
                keys@.to_set() == orig.dom(),
                self.awaiting == old(self).awaiting,
                self.outbox == old(self).outbox,
                orig == old(self).pendings@,
                forall|k: u128|
                    #[trigger] rest@.contains_key(k) <==> (orig.contains_key(k)
                        && !keys@.take(i as int).contains(k)),
                forall|k: u128| #[trigger] rest@.contains_key(k) ==> rest@[k] == orig[k],
                forall|k: u128|
                    #[trigger] self.pendings@.contains_key(k) ==> {
                        &&& orig.contains_key(k)
                        &&& orig[k].conn_id == conn_id
                        &&& self.pendings@[k] == orig[k]
                        &&& keys@.take(i as int).contains(k)
                        &&& (orig[k].lasting || duration_nanos(*timeout) > 0)
                    },
                forall|m: int|
                    0 <= m < stale@.len() ==> {
                        &&& orig.contains_key(#[trigger] stale@[m].0)
                        &&& orig[stale@[m].0] == stale@[m].1
                        &&& stale@[m].1.conn_id != conn_id
                        &&& keys@.take(i as int).contains(stale@[m].0)
                    },
                forall|a: int, b: int| 0 <= a < b < stale@.len() ==> stale@[a].0 != stale@[b].0,
                forall|m: int|
                    0 <= m < expired@.len() ==> {
                        let k = #[trigger] expired@[m].0;
                        &&& orig.contains_key(k)
                        &&& orig[k].conn_id == conn_id
                        &&& !orig[k].lasting
                        &&& expired@[m].1 == retry_step(orig[k], k)
                        &&& keys@.take(i as int).contains(k)
                        &&& !self.pendings@.contains_key(k)
                    },
                forall|a: int, b: int| 0 <= a < b < expired@.len() ==> expired@[a].0 != expired@[b].0,
                forall|j: int|
                    0 <= j < i && orig[#[trigger] keys@[j]].conn_id != conn_id ==> exists|m: int|
                        0 <= m < stale@.len() && stale@[m].0 == keys@[j],
                forall|j: int|
                    0 <= j < i && orig[#[trigger] keys@[j]].conn_id == conn_id ==> (
                    self.pendings@.contains_key(keys@[j]) || exists|m: int|
                        0 <= m < expired@.len() && expired@[m].0 == keys@[j]),
                forall|m: int|
                    0 <= m < waited@.len() ==> {
                        let x = #[trigger] waited@[m].0;
                        &&& orig.contains_key(x)
                        &&& orig[x].conn_id == conn_id
                        &&& !orig[x].lasting
                        &&& keys@.take(i as int).contains(x)
                        &&& (duration_nanos(waited@[m].1) >= duration_nanos(*timeout)
                            <==> !self.pendings@.contains_key(x))
                    },
                forall|j: int|
                    0 <= j < i && orig[#[trigger] keys@[j]].conn_id == conn_id && !orig[keys@[j]].lasting
                        ==> exists|m: int| 0 <= m < waited@.len() && waited@[m].0 == keys@[j],
            decreases keys@.len() - i,
        {
            let k = keys[i];
            let ghost prev = keys@.take(i as int);
            let ghost next = keys@.take(i + 1);
            proof {
                assert(next =~= prev.push(k));
                assert(orig.contains_key(k)) by {
                    assert(keys@.to_set().contains(k));
                }
                assert(!prev.contains(k)) by {
                    if prev.contains(k) {
                        let j = choose|j: int| 0 <= j < i && prev[j] == k;
                        assert(keys@[j] == keys@[i as int]);
                    }
                }
                assert forall|x: u128| next.contains(x) <==> (prev.contains(x) || x == k) by {
                    if prev.contains(x) {
                        let j = choose|j: int| 0 <= j < prev.len() && prev[j] == x;
                        assert(next[j] == x);
                    }
                    if x == k {
                        assert(next[i as int] == x);
                    }
                    if next.contains(x) && x != k {
                        let j = choose|j: int| 0 <= j < next.len() && next[j] == x;
                        assert(prev[j] == x);
                    }
                }
                assert(!self.pendings@.contains_key(k));
            }
            let ghost old_stale = stale@;
            let ghost old_expired = expired@;
            let ghost old_pend = self.pendings@;
            let ghost old_waited = waited@;
            let removed = rest.remove(&k);
            match removed {
                Some(t) => {
                    if t.conn_id != conn_id {
                        stale.push((k, t));
                    } else if t.lasting {
                        self.pendings.insert(k, t);
                    } else {
                        let w = elapsed(&t.started);
                        waited.push((k, w));
                        if timeout_reached(false, &w, timeout) {
                            let step = retry_or_abort(t, k);
                            expired.push((k, step));
                        } else {
                            self.pendings.insert(k, t);
                        }
                    }
                },
                None => {},
            }
            proof {
                assert(forall|m: int| 0 <= m < old_stale.len() ==> stale@[m] == old_stale[m]);
                assert(forall|m: int| 0 <= m < old_expired.len() ==> expired@[m] == old_expired[m]);
                assert(forall|m: int| 0 <= m < old_waited.len() ==> waited@[m] == old_waited[m]);
                assert forall|m: int| 0 <= m < waited@.len() implies {
                    let x = #[trigger] waited@[m].0;
                    &&& orig.contains_key(x)
                    &&& orig[x].conn_id == conn_id
                    &&& !orig[x].lasting
                    &&& next.contains(x)
                    &&& (duration_nanos(waited@[m].1) >= duration_nanos(*timeout)
                        <==> !self.pendings@.contains_key(x))
                } by {
                    if m < old_waited.len() {
                        let x = old_waited[m].0;
                        assert(prev.contains(x));
                        assert(x != k);
                    } else {
                        assert(next[i as int] == k);
                    }
                }
                assert forall|j: int|
                    0 <= j < i + 1 && orig[#[trigger] keys@[j]].conn_id == conn_id && !orig[keys@[j]].lasting
                        implies exists|m: int| 0 <= m < waited@.len() && waited@[m].0 == keys@[j] by {
                    if j == i {
                        assert(waited@[waited@.len() - 1].0 == keys@[j]);
                    } else {
                        let m = choose|m: int| 0 <= m < old_waited.len() && old_waited[m].0 == keys@[j];
                        assert(waited@[m].0 == keys@[j]);
                    }
                }
                assert forall|m: int| 0 <= m < stale@.len() implies {
                    &&& orig.contains_key(#[trigger] stale@[m].0)
                    &&& orig[stale@[m].0] == stale@[m].1
                    &&& stale@[m].1.conn_id != conn_id
                    &&& next.contains(stale@[m].0)
                } by {
                    if m < old_stale.len() {
                        assert(prev.contains(old_stale[m].0));
                    } else {
                        assert(next[i as int] == k);
                    }
                }
                assert forall|m: int| 0 <= m < expired@.len() implies {
                    let x = #[trigger] expired@[m].0;
                    &&& orig.contains_key(x)
                    &&& orig[x].conn_id == conn_id
                    &&& !orig[x].lasting
                    &&& expired@[m].1 == retry_step(orig[x], x)
                    &&& next.contains(x)
                    &&& !self.pendings@.contains_key(x)
                } by {
                    if m < old_expired.len() {
                        assert(prev.contains(old_expired[m].0));
                        assert(old_expired[m].0 != k);
                    } else {
                        assert(next[i as int] == k);
                    }
                }
                assert forall|x: u128| #[trigger] self.pendings@.contains_key(x) implies {
                    &&& orig.contains_key(x)
                    &&& orig[x].conn_id == conn_id
                    &&& self.pendings@[x] == orig[x]
                    &&& next.contains(x)
                    &&& (orig[x].lasting || duration_nanos(*timeout) > 0)
                } by {
                    if x != k {
                        assert(old_pend.contains_key(x));
                    }
                }
                assert forall|j: int|
                    0 <= j < i + 1 && orig[#[trigger] keys@[j]].conn_id != conn_id implies exists|m: int|
                        0 <= m < stale@.len() && stale@[m].0 == keys@[j] by {
                    if j == i {
                        assert(stale@[stale@.len() - 1].0 == keys@[j]);
                    } else {
                        let m = choose|m: int| 0 <= m < old_stale.len() && old_stale[m].0 == keys@[j];
                        assert(stale@[m].0 == keys@[j]);
                    }
                }
                assert forall|j: int|
                    0 <= j < i + 1 && orig[#[trigger] keys@[j]].conn_id == conn_id implies (
                    self.pendings@.contains_key(keys@[j]) || exists|m: int|
                        0 <= m < expired@.len() && expired@[m].0 == keys@[j]) by {
                    if j == i {
                        if !self.pendings@.contains_key(keys@[j]) {
                            assert(expired@[expired@.len() - 1].0 == keys@[j]);
                        }
                    } else {
                        assert(keys@[j] != k);
                        if old_pend.contains_key(keys@[j]) {
                            assert(self.pendings@.contains_key(keys@[j]));
                        } else {
                            let m = choose|m: int| 0 <= m < old_expired.len() && old_expired[m].0 == keys@[j];
                            assert(expired@[m].0 == keys@[j]);
                        }
                    }
                }
            }
            i = i + 1;
        }
        proof {
            assert(keys@.take(keys@.len() as int) =~= keys@);
            assert forall|k: u128|
                #[trigger] old(self).pending().contains_key(k) && old(self).pending()[k].conn_id
                    != conn_id implies exists|i: int| 0 <= i < stale@.len() && stale@[i].0 == k by {
                assert(keys@.to_set().contains(k));
                let j = choose|j: int| 0 <= j < keys@.len() && keys@[j] == k;
                assert(orig[keys@[j]].conn_id != conn_id);
                let m = choose|m: int| 0 <= m < stale@.len() && stale@[m].0 == keys@[j];
                assert(stale@[m].0 == k);
            }
            assert forall|k: u128|
                #[trigger] old(self).pending().contains_key(k) && old(self).pending()[k].conn_id
                    == conn_id implies self.pendings@.contains_key(k) || exists|i: int|
                    0 <= i < expired@.len() && expired@[i].0 == k by {
                assert(keys@.to_set().contains(k));
                let j = choose|j: int| 0 <= j < keys@.len() && keys@[j] == k;
                assert(orig[keys@[j]].conn_id == conn_id);
            }
            assert forall|k: u128|
                #[trigger] old(self).pending().contains_key(k) && old(self).pending()[k].conn_id
                    == conn_id && old(self).pending()[k].lasting implies self.pendings@.contains_key(k) by {
                assert(keys@.to_set().contains(k));
                let j = choose|j: int| 0 <= j < keys@.len() && keys@[j] == k;
                assert(orig[keys@[j]].conn_id == conn_id);
                if !self.pendings@.contains_key(k) {
                    let m = choose|m: int| 0 <= m < expired@.len() && expired@[m].0 == keys@[j];
                    assert(!orig[expired@[m].0].lasting);
                }
            }
            if old(self).inv() {
                assert forall|k: u128| #[trigger] self.pending().contains_key(k) implies self.pending()[k].attempts_allowed() by {
                    assert(old(self).pending().contains_key(k));
                }
            }
        }
        proof {
            assert forall|k: u128|
                #[trigger] old(self).pending().contains_key(k) && old(self).pending()[k].conn_id
                    == conn_id && !old(self).pending()[k].lasting implies exists|m: int|
                    0 <= m < waited@.len() && waited@[m].0 == k by {
                assert(keys@.to_set().contains(k));
                let j = choose|j: int| 0 <= j < keys@.len() && keys@[j] == k;
                assert(orig[keys@[j]].conn_id == conn_id && !orig[keys@[j]].lasting);
                let m = choose|m: int| 0 <= m < waited@.len() && waited@[m].0 == keys@[j];
                assert(waited@[m].0 == k);
            }
        }
        let ghost stale_seq = stale@;
        let ghost waited_seq = waited@;
        let ghost expired_seq = expired@;
        let ghost pend = self.pendings@;
        let waiting = self.take_waiting_with_correlations();
        let r = Checked { stale, expired, waiting, waited };
        assert(r.waited@ == waited_seq && r.expired@ == expired_seq && self.pendings@ == pend);
        assert forall|k: u128|
            #[trigger] old(self).pending().contains_key(k) && old(self).pending()[k].conn_id
                == conn_id && !old(self).pending()[k].lasting implies exists|i: int|
                0 <= i < r.waited@.len() && r.waited@[i].0 == k by {
            let m = choose|m: int| 0 <= m < waited_seq.len() && waited_seq[m].0 == k;
            assert(r.waited@[m].0 == k);
        }
        assert forall|i: int| 0 <= i < r.waited@.len() implies {
            let k = #[trigger] r.waited@[i].0;
            &&& old(self).pending().contains_key(k)
            &&& old(self).pending()[k].conn_id == conn_id
            &&& !old(self).pending()[k].lasting
            &&& (duration_nanos(r.waited@[i].1) >= duration_nanos(*timeout)
                <==> !self.pending().contains_key(k))
        } by {
            assert(waited_seq[i] == r.waited@[i]);
        }
        assert forall|k: u128|
            #[trigger] old(self).pending().contains_key(k) && old(self).pending()[k].conn_id
                != conn_id implies exists|i: int| 0 <= i < r.stale@.len() && r.stale@[i].0 == k by {
            let m = choose|m: int| 0 <= m < stale_seq.len() && stale_seq[m].0 == k;
            assert(r.stale@[m].0 == k);
        }
        r
    }

    /// Hands out the operations waiting for a connection, the latest first,
    /// each with a fresh correlation id, and forgets them.
    fn take_waiting_with_correlations(&mut self) -> (r: Vec<(O, u128)>)
        ensures
            r@.len() == old(self).waiting().len(),
            forall|i: int| 0 <= i < r@.len() ==> #[trigger] r@[i].0 == old(self).waiting().reverse()[i],
            final(self).waiting() == Seq::<O>::empty(),
            final(self).pending() == old(self).pending(),
            final(self).to_send() == old(self).to_send(),
    {
        let mut r: Vec<(O, u128)> = Vec::new();
        let ghost w = self.awaiting@;
        while self.awaiting.len() > 0
            invariant
                self.awaiting@ == w.take(self.awaiting@.len() as int),
                r@.len() + self.awaiting@.len() == w.len(),
                forall|i: int| 0 <= i < r@.len() ==> #[trigger] r@[i].0 == w.reverse()[i],
                self.pendings == old(self).pendings,
                self.outbox == old(self).outbox,
            decreases self.awaiting@.len(),
        {
            let op = self.awaiting.pop().unwrap();
            let ghost before = r@;
            r.push((op, fresh_uuid()));
            assert(self.awaiting@ =~= w.take(self.awaiting@.len() as int));
            assert forall|i: int| 0 <= i < r@.len() implies #[trigger] r@[i].0 == w.reverse()[i] by {
                if i < before.len() {
                    assert(r@[i] == before[i]);
                }
            }
        }
        r
    }

    /// Records what the operation of a request sent on an earlier connection
    /// wants after the connection changed to `conn_id`: a request to send
    /// again starts the tracker over under that request's correlation id and
    /// command, and is queued for sending; no request means the operation is
    /// no longer tracked; an error aborts the operation.
    pub fn connection_dropped(
        &mut self,
        tracker: Tracker<O>,
        conn_id: u128,
        result: Result<Option<Pkg>, Error>,
    ) -> (r: Option<(O, OperationError)>)
        ensures
            old(self).inv() ==> final(self).inv(),
            final(self).waiting() == old(self).waiting(),
            match result {
                Ok(Some(pkg)) => {
                    &&& r is None
                    &&& final(self).to_send() == old(self).to_send().push(pkg)
                    &&& final(self).pending().dom() == old(self).pending().dom().insert(
                        pkg.correlation,
                    )
                    &&& forall|k: u128|
                        k != pkg.correlation && #[trigger] old(self).pending().contains_key(k)
                            ==> final(self).pending()[k] == old(self).pending()[k]
                    &&& ({
                        let t = final(self).pending()[pkg.correlation];
                        &&& t.cmd == pkg.cmd
                        &&& t.attempts == 0
                        &&& !t.lasting
                        &&& t.conn_id == conn_id
                        &&& t.max_retry == tracker.max_retry
                        &&& t.operation == tracker.operation
                    })
                },
                Ok(None) => r is None && final(self).pending() == old(self).pending()
                    && final(self).to_send() == old(self).to_send(),
                Err(_) => r == Some((tracker.operation, OperationError::Aborted))
                    && final(self).pending() == old(self).pending() && final(self).to_send()
                    == old(self).to_send(),
            },
    {
        match result {
            Ok(Some(pkg)) => {
                let correlation = pkg.correlation;
                let mut tracker = tracker;
                tracker.cmd = pkg.cmd;
                tracker.reuse(conn_id);
                self.pendings.insert(correlation, tracker);
                self.outbox.push(pkg);
                proof {
                    if old(self).inv() {
                        assert forall|k: u128| #[trigger] self.pending().contains_key(k) implies self.pending()[k].attempts_allowed() by {
                            if k != correlation {
                                assert(old(self).pending().contains_key(k));
                            }
                        }
                    }
                }
                None
            },
            Ok(None) => None,
            Err(_) => Some((tracker.operation, OperationError::Aborted)),
        }
    }

    /// Records, for each request sent on an earlier connection, what its
    /// operation wants after the connection changed to `conn_id`, as
    /// [`Registry::connection_dropped`] does for one, in order. Gives back
    /// the operations to abort.
    pub fn connections_dropped(
        &mut self,
        conn_id: u128,
        outcomes: Vec<(Tracker<O>, Result<Option<Pkg>, Error>)>,
    ) -> (r: Vec<(O, OperationError)>)
        ensures
            old(self).inv() ==> final(self).inv(),
            final(self).waiting() == old(self).waiting(),
            r@ == aborted_after_drop(outcomes@),
            final(self).to_send() == old(self).to_send() + resent_after_drop(outcomes@),
            forall|k: u128|
                #[trigger] final(self).pending().contains_key(k) <==> (old(self).pending().contains_key(
                    k,
                ) || last_resent(outcomes@, k) >= 0),
            forall|k: u128|
                #[trigger] old(self).pending().contains_key(k) && last_resent(outcomes@, k) < 0
                    ==> final(self).pending()[k] == old(self).pending()[k],
            forall|k: u128|
                #[trigger] last_resent(outcomes@, k) >= 0 ==> renewed(
                    final(self).pending()[k],
                    outcomes@[last_resent(outcomes@, k)],
                    conn_id,
                ),
            on_connection(old(self).pending(), conn_id) ==> on_connection(
                final(self).pending(),
                conn_id,
            ),
    {
        let ghost all = outcomes@;
        assert(all.len() == outcomes.len());
        let mut rest = outcomes;
        let mut r: Vec<(O, OperationError)> = Vec::new();
        let mut i: usize = 0;
        while rest.len() > 0
            invariant
                i <= all.len() <= usize::MAX,
                rest@ == all.skip(i as int),
                old(self).inv() ==> self.inv(),
                self.waiting() == old(self).waiting(),
                r@ == aborted_after_drop(all.take(i as int)),
                self.to_send() == old(self).to_send() + resent_after_drop(all.take(i as int)),
                forall|k: u128|
                    #[trigger] self.pending().contains_key(k) <==> (old(self).pending().contains_key(k)
                        || last_resent(all.take(i as int), k) >= 0),
                forall|k: u128|
                    #[trigger] old(self).pending().contains_key(k) && last_resent(all.take(i as int), k)
                        < 0 ==> self.pending()[k] == old(self).pending()[k],
                forall|k: u128|
                    #[trigger] last_resent(all.take(i as int), k) >= 0 ==> renewed(
                        self.pending()[k],
                        all[last_resent(all.take(i as int), k)],
                        conn_id,
                    ),
            decreases all.len() - i,
        {
            let ghost prev = all.take(i as int);
            let ghost next = all.take(i + 1);
            let ghost o = all[i as int];
            let ghost before = *self;
            proof {
                assert(all.skip(i as int).len() > 0);
                assert(rest@[0] == o);
                assert(next.drop_last() =~= prev);
                assert(next.last() == o);
            }
            let (tracker, result) = rest.remove(0);
            let failed = self.connection_dropped(tracker, conn_id, result);
            match failed {
                Some(f) => r.push(f),
                None => {},
            }
            proof {
                assert(rest@ =~= all.skip(i + 1));
                assert forall|k: u128|
                    #[trigger] self.pending().contains_key(k) <==> (old(self).pending().contains_key(k)
                        || last_resent(next, k) >= 0) by {
                    assert(before.pending().contains_key(k) <==> (old(self).pending().contains_key(k)
                        || last_resent(prev, k) >= 0));
                }
                assert forall|k: u128|
                    #[trigger] old(self).pending().contains_key(k) && last_resent(next, k) < 0
                        implies self.pending()[k] == old(self).pending()[k] by {
                    assert(last_resent(prev, k) < 0);
                    assert(before.pending().contains_key(k));
                }
                assert forall|k: u128|
                    #[trigger] last_resent(next, k) >= 0 implies renewed(
                        self.pending()[k],
                        all[last_resent(next, k)],
                        conn_id,
                    ) by {
                    lemma_last_resent_range(prev, k);
                    if last_resent(next, k) != i {
                        assert(last_resent(next, k) == last_resent(prev, k));
                        assert(prev[last_resent(prev, k)] == all[last_resent(prev, k)]);
                        assert(before.pending().contains_key(k));
                    }
                }
            }
            i = i + 1;
        }
        proof {
            assert(all.take(i as int) =~= all);
            if on_connection(old(self).pending(), conn_id) {
                assert forall|k: u128| #[trigger] self.pending().contains_key(k) implies self.pending()[k].conn_id == conn_id by {
                    if last_resent(all, k) < 0 {
                        assert(old(self).pending().contains_key(k));
                    }
                }
            }
        }
        r
    }

    /// Hands out the packages to send, in order, and forgets them.
    pub fn take_outbox(&mut self) -> (r: Vec<Pkg>)
        ensures
            r@ == old(self).to_send(),
            final(self).to_send() == Seq::<Pkg>::empty(),
            final(self).pending() == old(self).pending(),
            final(self).waiting() == old(self).waiting(),
    {
        let mut out: Vec<Pkg> = Vec::new();
        std::mem::swap(&mut out, &mut self.outbox);
        out
    }

    /// Registers an operation. Without a connection it waits for one, and
    /// `None` comes back. With a connection, a fresh correlation id is drawn
    /// and handed back with the operation, which has to issue its request
    /// under that id; [`Registry::issued`] records the outcome.
    pub fn register(&mut self, op: O, conn: Option<u128>) -> (r: Option<(O, u128)>)
        ensures
            final(self).pending() == old(self).pending(),
            final(self).to_send() == old(self).to_send(),
            conn is None ==> r is None && final(self).waiting() == old(self).waiting().push(op),
            conn is Some ==> (r matches Some(p) && p.0 == op) && final(self).waiting()
                == old(self).waiting(),
    {
        match conn {
            None => {
                self.awaiting.push(op);
                None
            },
            Some(_) => {
                let correlation = fresh_uuid();
                Some((op, correlation))
            },
        }
    }

    /// Records the request an operation issued under `correlation` on
    /// connection `conn_id`: the package is queued for sending and the
    /// operation tracked under the correlation id. When the operation could
    /// not issue its request, it is dropped.
    pub fn issued(
        &mut self,
        op: O,
        max_retry: usize,
        correlation: u128,
        conn_id: u128,
        result: Result<Pkg, Error>,
    ) -> (r: Result<(), Error>)
        ensures
            old(self).inv() ==> final(self).inv(),
            final(self).waiting() == old(self).waiting(),
            match result {
                Ok(pkg) => {
                    &&& r is Ok
                    &&& final(self).to_send() == old(self).to_send().push(pkg)
                    &&& final(self).pending().dom() == old(self).pending().dom().insert(
                        correlation,
                    )
                    &&& forall|k: u128|
                        k != correlation && #[trigger] old(self).pending().contains_key(k)
                            ==> final(self).pending()[k] == old(self).pending()[k]
                    &&& ({
                        let t = final(self).pending()[correlation];
                        &&& t.cmd == pkg.cmd
                        &&& t.attempts == 0
                        &&& !t.lasting
                        &&& t.conn_id == conn_id
                        &&& t.max_retry == max_retry
                        &&& t.operation == op
                    })
                },
                Err(e) => {
                    &&& r == Err::<(), Error>(e)
                    &&& final(self).to_send() == old(self).to_send()
                    &&& final(self).pending() == old(self).pending()
                },
            },
    {
        match result {
            Ok(pkg) => {
                let tracker = Tracker::new(pkg.cmd, conn_id, op, max_retry);
                self.pendings.insert(correlation, tracker);
                self.outbox.push(pkg);
                proof {
                    if old(self).inv() {
                        assert forall|k: u128| #[trigger] self.pending().contains_key(k) implies self.pending()[k].attempts_allowed() by {
                            if k != correlation {
                                assert(old(self).pending().contains_key(k));
                            }
                        }
                    }
                }
                Ok(())
            },
            Err(e) => Err(e),
        }
    }

    /// Records, for each waiting operation handed out by
    /// [`Registry::check_and_retry`], the request it issued on connection
    /// `conn_id`, as [`Registry::issued`] does for one, in order. Gives back
    /// the errors of the operations that could not issue their requests.
    pub fn issued_all(
        &mut self,
        conn_id: u128,
        outcomes: Vec<(O, usize, u128, Result<Pkg, Error>)>,
    ) -> (r: Vec<Error>)
        ensures
            old(self).inv() ==> final(self).inv(),
            final(self).waiting() == old(self).waiting(),
            r@ == issue_errors(outcomes@),
            final(self).to_send() == old(self).to_send() + issue_sent(outcomes@),
            forall|k: u128|
                #[trigger] final(self).pending().contains_key(k) <==> (old(self).pending().contains_key(
                    k,
                ) || last_issued(outcomes@, k) >= 0),
            forall|k: u128|
                #[trigger] old(self).pending().contains_key(k) && last_issued(outcomes@, k) < 0
                    ==> final(self).pending()[k] == old(self).pending()[k],
            forall|k: u128|
                #[trigger] last_issued(outcomes@, k) >= 0 ==> registered(
                    final(self).pending()[k],
                    outcomes@[last_issued(outcomes@, k)],
                    conn_id,
                ),
            on_connection(old(self).pending(), conn_id) ==> on_connection(
                final(self).pending(),
                conn_id,
            ),
    {
        let ghost all = outcomes@;
        assert(all.len() == outcomes.len());
        let mut rest = outcomes;
        let mut r: Vec<Error> = Vec::new();
        let mut i: usize = 0;
        while rest.len() > 0
            invariant
                i <= all.len() <= usize::MAX,
                rest@ == all.skip(i as int),
                old(self).inv() ==> self.inv(),
                self.waiting() == old(self).waiting(),
                r@ == issue_errors(all.take(i as int)),
                self.to_send() == old(self).to_send() + issue_sent(all.take(i as int)),
                forall|k: u128|
                    #[trigger] self.pending().contains_key(k) <==> (old(self).pending().contains_key(k)
                        || last_issued(all.take(i as int), k) >= 0),
                forall|k: u128|
                    #[trigger] old(self).pending().contains_key(k) && last_issued(all.take(i as int), k)
                        < 0 ==> self.pending()[k] == old(self).pending()[k],
                forall|k: u128|
                    #[trigger] last_issued(all.take(i as int), k) >= 0 ==> registered(
                        self.pending()[k],
                        all[last_issued(all.take(i as int), k)],
                        conn_id,
                    ),
            decreases all.len() - i,
        {
            let ghost prev = all.take(i as int);
            let ghost next = all.take(i + 1);
            let ghost o = all[i as int];
            let ghost before = *self;
            proof {
                assert(all.skip(i as int).len() > 0);
                assert(rest@[0] == o);
                assert(next.drop_last() =~= prev);
                assert(next.last() == o);
            }
            let (op, max_retry, correlation, result) = rest.remove(0);
            let outcome = self.issued(op, max_retry, correlation, conn_id, result);
            match outcome {
                Err(e) => r.push(e),
                Ok(()) => {},
            }
            proof {
                assert(rest@ =~= all.skip(i + 1));
                assert forall|k: u128|
                    #[trigger] self.pending().contains_key(k) <==> (old(self).pending().contains_key(k)
                        || last_issued(next, k) >= 0) by {
                    assert(before.pending().contains_key(k) <==> (old(self).pending().contains_key(k)
                        || last_issued(prev, k) >= 0));
                }
                assert forall|k: u128|
                    #[trigger] old(self).pending().contains_key(k) && last_issued(next, k) < 0
                        implies self.pending()[k] == old(self).pending()[k] by {
                    assert(last_issued(prev, k) < 0);
                    assert(before.pending().contains_key(k));
                }
                assert forall|k: u128|
                    #[trigger] last_issued(next, k) >= 0 implies registered(
                        self.pending()[k],
                        all[last_issued(next, k)],
                        conn_id,
                    ) by {
                    lemma_last_issued_range(prev, k);
                    if last_issued(next, k) != i {
                        assert(last_issued(next, k) == last_issued(prev, k));
                        assert(prev[last_issued(prev, k)] == all[last_issued(prev, k)]);
                        assert(before.pending().contains_key(k));
                    }
                }
            }
            i = i + 1;
        }
        proof {
            assert(all.take(i as int) =~= all);
            if on_connection(old(self).pending(), conn_id) {
                assert forall|k: u128| #[trigger] self.pending().contains_key(k) implies self.pending()[k].conn_id == conn_id by {
                    if last_issued(all, k) < 0 {
                        assert(old(self).pending().contains_key(k));
                    }
                }
            }
        }
        r
    }

    /// Handles a package from the server with correlation id `correlation`.
    /// A package nobody waits for is ignored. Otherwise the request is no
    /// longer pending and the step says what follows: a rejected or
    /// unauthenticated request fails its operation; a request the server did
    /// not handle because another node is master puts its operation back to
    /// wait for a connection and asks to reconnect to that node; one the
    /// server was too busy for is retried; one whose refusal could not be
    /// read is dropped and the error handed back; any other package goes to
    /// the operation.
    pub fn handle(&mut self, correlation: u128, reply: Reply) -> (s: Step<O>)
        ensures
            old(self).inv() ==> final(self).inv(),
            old(self).inv() ==> (s matches Step::Respond(t, _) ==> t.attempts_allowed()),
            final(self).to_send() == old(self).to_send(),
            !old(self).pending().contains_key(correlation) ==> {
                &&& s == Step::<O>::Finished(None)
                &&& final(self).pending() == old(self).pending()
                &&& final(self).waiting() == old(self).waiting()
            },
            old(self).pending().contains_key(correlation) ==> {
                let t = old(self).pending()[correlation];
                &&& final(self).pending() == old(self).pending().remove(correlation)
                &&& match reply {
                    Reply::BadRequest(msg) => s == Step::Fail(
                        t.operation,
                        OperationError::ServerError(Some(msg)),
                    ) && final(self).waiting() == old(self).waiting(),
                    Reply::NotAuthenticated => s == Step::Fail(
                        t.operation,
                        OperationError::AuthenticationRequired,
                    ) && final(self).waiting() == old(self).waiting(),
                    Reply::NotHandled(Ok(Some(endpoint))) => s == Step::<O>::Finished(
                        Some(endpoint),
                    ) && final(self).waiting() == old(self).waiting().push(t.operation),
                    Reply::NotHandled(Ok(None)) => s == retry_step(t, correlation)
                        && final(self).waiting() == old(self).waiting(),
                    Reply::NotHandled(Err(e)) => s == Step::<O>::Dropped(e)
                        && final(self).waiting() == old(self).waiting(),
                    Reply::Other(pkg) => s == Step::Respond(t, pkg) && final(self).waiting()
                        == old(self).waiting(),
                }
            },
    {
        let removed = self.pendings.remove(&correlation);
        match removed {
            None => Step::Finished(None),
            Some(tracker) => {
                proof {
                    assert(old(self).pending().contains_key(correlation));
                }
                match reply {
                    Reply::BadRequest(msg) => Step::Fail(
                        tracker.operation,
                        OperationError::ServerError(Some(msg)),
                    ),
                    Reply::NotAuthenticated => Step::Fail(
                        tracker.operation,
                        OperationError::AuthenticationRequired,
                    ),
                    Reply::NotHandled(decoded) => match decoded {
                        Ok(Some(endpoint)) => {
                            self.awaiting.push(tracker.operation);
                            Step::Finished(Some(endpoint))
                        },
                        Ok(None) => retry_or_abort(tracker, correlation),
                        Err(e) => Step::Dropped(e),
                    },
                    Reply::Other(pkg) => Step::Respond(tracker, pkg),
                }
            },
        }
    }

    /// Records the outcome of a retry: the re-issued request is queued for
    /// sending and tracked again under `correlation` on connection
    /// `conn_id`, with one more attempt counted. When the operation could not
    /// re-issue its request, the request is dropped and the error returned.
    pub fn retried(
        &mut self,
        tracker: Tracker<O>,
        correlation: u128,
        conn_id: u128,
        result: Result<Pkg, Error>,
    ) -> (r: Result<(), Error>)
        requires
            tracker.attempts + 1 < tracker.max_retry,
        ensures
            old(self).inv() ==> final(self).inv(),
            final(self).waiting() == old(self).waiting(),
            match result {
                Ok(pkg) => {
                    &&& r is Ok
                    &&& final(self).to_send() == old(self).to_send().push(pkg)
                    &&& final(self).pending() == old(self).pending().insert(
                        correlation,
                        Tracker {
                            attempts: (tracker.attempts + 1) as usize,
                            conn_id: conn_id,
                            ..tracker
                        },
                    )
                },
                Err(e) => {
                    &&& r == Err::<(), Error>(e)
                    &&& final(self).to_send() == old(self).to_send()
                    &&& final(self).pending() == old(self).pending()
                },
            },
    {
        match result {
            Ok(pkg) => {
                let mut tracker = tracker;
                tracker.attempts = tracker.attempts + 1;
                tracker.conn_id = conn_id;
                self.outbox.push(pkg);
                self.pendings.insert(correlation, tracker);
                proof {
                    if old(self).inv() {
                        assert forall|k: u128| #[trigger] self.pending().contains_key(k) implies self.pending()[k].attempts_allowed() by {
                            if k != correlation {
                                assert(old(self).pending().contains_key(k));
                            }
                        }
                    }
                }
                Ok(())
            },
            Err(e) => Err(e),
        }
    }

    /// Records what an operation said about the package with correlation id
    /// `correlation` and command `pkg_cmd`, received on connection
    /// `conn_id`. An operation that wants to retry is retried or aborted; one
    /// that is done and has a next request starts over with it; one that is
    /// done without a next request, or terminates, is no longer tracked; one
    /// that awaits more packages stays tracked and no longer times out; one
    /// that did not expect the package fails. When the operation failed to
    /// read the package, it is no longer tracked and the error comes back.
    pub fn responded(
        &mut self,
        tracker: Tracker<O>,
        correlation: u128,
        pkg_cmd: u8,
        conn_id: u128,
        result: Result<(ImplResult, Option<Pkg>), Error>,
    ) -> (s: Step<O>)
        ensures
            old(self).inv() && tracker.attempts_allowed() ==> final(self).inv(),
            final(self).waiting() == old(self).waiting(),
            match result {
                Err(e) => s == Step::<O>::Dropped(e) && final(self).pending() == old(self).pending() && final(self).to_send() == old(self).to_send(),
                Ok((ImplResult::Retry, _)) => s == retry_step(tracker, correlation) && final(self).pending() == old(self).pending() && final(self).to_send() == old(self).to_send(),
                Ok((ImplResult::Done, Some(next))) => {
                    &&& s == Step::<O>::Finished(None)
                    &&& final(self).to_send() == old(self).to_send().push(next)
                    &&& final(self).pending().dom() == old(self).pending().dom().insert(
                        correlation,
                    )
                    &&& forall|k: u128|
                        k != correlation && #[trigger] old(self).pending().contains_key(k)
                            ==> final(self).pending()[k] == old(self).pending()[k]
                    &&& ({
                        let t = final(self).pending()[correlation];
                        &&& t.attempts == 0
                        &&& !t.lasting
                        &&& t.conn_id == conn_id
                        &&& t.cmd == tracker.cmd
                        &&& t.max_retry == tracker.max_retry
                        &&& t.operation == tracker.operation
                    })
                },
                Ok((ImplResult::Awaiting, _)) => {
                    &&& s == Step::<O>::Finished(None)
                    &&& final(self).to_send() == old(self).to_send()
                    &&& final(self).pending() == old(self).pending().insert(
                        correlation,
                        Tracker { lasting: true, ..tracker },
                    )
                },
                Ok((ImplResult::Unexpected, _)) => s == Step::Fail(
                    tracker.operation,
                    OperationError::WrongClientImpl(Some(pkg_cmd)),
                ) && final(self).pending() == old(self).pending() && final(self).to_send()
                    == old(self).to_send(),
                Ok(_) => s == Step::<O>::Finished(None) && final(self).pending() == old(self).pending() && final(self).to_send() == old(self).to_send(),
            },
    {
        match result {
            Err(e) => Step::Dropped(e),
            Ok((outcome, next)) => match outcome {
                ImplResult::Retry => retry_or_abort(tracker, correlation),
                ImplResult::Done => {
                    match next {
                        Some(pkg) => {
                            let mut tracker = tracker;
                            tracker.reuse(conn_id);
                            self.outbox.push(pkg);
                            self.pendings.insert(correlation, tracker);
                        proof {
                            if old(self).inv() {
                                assert forall|k: u128| #[trigger] self.pending().contains_key(k) implies self.pending()[k].attempts_allowed() by {
                                    if k != correlation {
                                        assert(old(self).pending().contains_key(k));
                                    }
                                }
                            }
                        }
                        },
                        None => {},
                    }
                    Step::Finished(None)
                },
                ImplResult::Awaiting => {
                    let mut tracker = tracker;
                    tracker.lasting = true;
                    self.pendings.insert(correlation, tracker);
                    proof {
                        if old(self).inv() && tracker.attempts_allowed() {
                            assert forall|k: u128| #[trigger] self.pending().contains_key(k) implies self.pending()[k].attempts_allowed() by {
                                if k != correlation {
                                    assert(old(self).pending().contains_key(k));
                                }
                            }
                        }
                    }
                    Step::Finished(None)
                },
                ImplResult::Terminate => Step::Finished(None),
                ImplResult::Unexpected => Step::Fail(
                    tracker.operation,
                    OperationError::wrong_client_impl_on_cmd(pkg_cmd),
                ),
            },
        }
    }
}

} // verus!
