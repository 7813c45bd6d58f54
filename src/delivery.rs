use vstd::prelude::*;
use crate::authority::{
    ResolveError, authority_of, host_name, parse_uri_authority, request_authority, uri_authority,
};
use crate::ledger::{Attempt, Ledger, LedgerError, RequestRecord, retry_at};
use crate::origin::{Origin, OriginCache};
use crate::ledger::{claimed, due, lemma_retry_after_now};
use crate::state::{RequestState, retryable};

verus! {

/// What forwarding one request to its origin gave.
#[derive(Debug)]
pub enum Outcome {
    /// The exchange completed (a timeout counts as a locally made 504).
    Response { status: u16, body: Option<Vec<u8>> },
    /// The exchange could not be completed.
    TransportError,
}

/// Where origin resolution sends a request.
#[derive(Debug)]
pub enum Route {
    /// Forward it to this origin.
    Forward(Origin),
    /// No origin handles its authority: it was marked `Skipped`.
    Skipped,
}

#[derive(Clone, Copy, Debug, PartialEq, Eq, Structural)]
pub enum RouteError {
    /// No request has this identifier.
    UnknownRequest,
    /// The authority of the request could not be determined.
    Resolve(ResolveError),
    /// The matching origin's URI does not parse.
    InvalidOriginUri,
}

/// How one forwarding attempt ended.
#[derive(Clone, Copy, Debug, PartialEq, Eq, Structural)]
pub struct Conclusion {
    /// The state recorded for the request.
    pub state: RequestState,
    /// Whether the alert notifier is to be invoked for the request.
    pub alert: bool,
}

/// The timeout status that a forwarding attempt records when it elapses.
pub const TIMEOUT_STATUS: u16 = 504;

/// Most bytes of a response body that an attempt keeps.
pub const MAX_CAPTURED_BODY: usize = 65536;

pub open spec fn opt_bytes(b: Option<Vec<u8>>) -> Option<Seq<u8>> {
    match b {
        Some(v) => Some(v@),
        None => None,
    }
}

/// What an attempt keeps of a response body: at most its first
/// `MAX_CAPTURED_BODY` bytes.
pub open spec fn captured(b: Option<Seq<u8>>) -> Option<Seq<u8>> {
    match b {
        Some(v) => Some(
            if v.len() <= MAX_CAPTURED_BODY {
                v
            } else {
                v.take(MAX_CAPTURED_BODY as int)
            },
        ),
        None => None,
    }
}

/// Bounds a response body to the size that an attempt keeps.
pub fn capture_body(body: Option<Vec<u8>>) -> (r: Option<Vec<u8>>)
    ensures
        opt_bytes(r) == captured(opt_bytes(body)),
{
    match body {
        Some(mut v) => {
            v.truncate(MAX_CAPTURED_BODY);
            Some(v)
        },
        None => None,
    }
}

/// The outcome that stands for a forward whose timeout elapsed: a locally
/// made 504 response without a body.
pub fn timed_out() -> (r: Outcome)
    ensures
        r matches Outcome::Response { status, body } && status == TIMEOUT_STATUS && body is None,
{
    Outcome::Response { status: TIMEOUT_STATUS, body: None }
}

/// Whether a header is carried to the origin: all but `host`, which the
/// origin's own authority replaces.
pub open spec fn forwarded(h: (String, String)) -> bool {
    h.0@ != host_name()
}

/// The headers sent to the origin: every header but `host`, in order.
pub fn forward_headers(headers: &Vec<(String, String)>) -> (r: Vec<(String, String)>)
    ensures
        r@ == headers@.filter(|h: (String, String)| forwarded(h)),
{
    let host = String::from_str("host");
    proof {
        reveal_strlit("host");
        assert(host@ =~= host_name());
    }
    let mut out: Vec<(String, String)> = Vec::new();
    let mut i: usize = 0;
    assert(headers@.subrange(0, 0) =~= Seq::<(String, String)>::empty());
    while i < headers.len()
        invariant
            i <= headers@.len(),
            host@ == host_name(),
            out@ == headers@.subrange(0, i as int).filter(|h: (String, String)| forwarded(h)),
        decreases headers@.len() - i,
    {
        let ghost pre = headers@.subrange(0, i as int);
        proof {
            assert(headers@.subrange(0, i + 1) =~= pre.push(headers@[i as int]));
            pre.lemma_filter_push(headers@[i as int], |h: (String, String)| forwarded(h));
        }
        if !(headers[i].0 == host) {
            let name = headers[i].0.clone();
            let value = headers[i].1.clone();
            out.push((name, value));
        }
        i = i + 1;
    }
    assert(headers@.subrange(0, i as int) =~= headers@);
    out
}

/// The state that a response status leads to.
pub open spec fn classify_spec(status: u16) -> RequestState {
    if 200 <= status <= 299 {
        RequestState::Completed
    } else if status == TIMEOUT_STATUS {
        RequestState::Timeout
    } else {
        RequestState::Failed
    }
}

/// Classifies a response status: 2xx completes, 504 times out, any other fails.
pub fn classify(status: u16) -> (r: RequestState)
    ensures
        r == classify_spec(status),
{
    if 200 <= status && status <= 299 {
        RequestState::Completed
    } else if status == TIMEOUT_STATUS {
        RequestState::Timeout
    } else {
        RequestState::Failed
    }
}

/// Whether a failed attempt that leaves `attempts` recorded attempts raises
/// an alert: a transport failure always does, another failure once the
/// origin's threshold is reached, a completion never.
pub open spec fn alert_due(origin: Origin, state: RequestState, attempts: nat) -> bool {
    match state {
        RequestState::Panic => true,
        RequestState::Failed | RequestState::Timeout => match origin.alert_threshold {
            Some(t) => attempts >= t,
            None => false,
        },
        _ => false,
    }
}

/// The origin that handles the request recorded as `rec`: none when no
/// origin matches its authority, an error when the authority cannot be
/// determined or the matching origin's URI does not parse.
pub open spec fn origin_for(cache: &OriginCache, rec: RequestRecord) -> Result<
    Option<Origin>,
    RouteError,
> {
    match authority_of(rec.uri@, rec.headers@) {
        Ok(a) => match cache.lookup(a) {
            Some(o) => if uri_authority(o.uri@) is None {
                Err(RouteError::InvalidOriginUri)
            } else {
                Ok(Some(o))
            },
            None => Ok(None),
        },
        Err(e) => Err(RouteError::Resolve(e)),
    }
}

/// Accepts an inbound request: persists it (`Received`), takes it through
/// `Created` and records it as `Enqueued`. Returns its identifier.
pub fn ingest(
    ledger: &mut Ledger,
    method: String,
    uri: String,
    headers: Vec<(String, String)>,
    body: Option<Vec<u8>>,
    now: u64,
) -> (r: Result<u64, LedgerError>)
    requires
        old(ledger).wf(),
    ensures
        final(ledger).wf(),
        final(ledger).next_attempt() == old(ledger).next_attempt(),
        old(ledger)@.len() < u64::MAX <==> r is Ok,
        match r {
            Ok(id) => {
                &&& id == old(ledger)@.len() + 1
                &&& final(ledger)@ == old(ledger)@.push(final(ledger).record(id))
                &&& final(ledger).record(id) == (RequestRecord {
                    id,
                    method,
                    uri,
                    headers,
                    body,
                    state: RequestState::Enqueued,
                    created_at: now,
                    next_retry_at: None,
                    attempts: final(ledger).record(id).attempts,
                })
                &&& final(ledger).attempt_count(id) == 0
            },
            Err(e) => e == LedgerError::Full && final(ledger)@ == old(ledger)@,
        },
{
    let id = match ledger.create(method, uri, headers, body, now) {
        Ok(id) => id,
        Err(e) => return Err(e),
    };
    let ghost created = *ledger;
    let r = ledger.set_state(id, RequestState::Enqueued);
    proof {
        assert forall|k: int| 0 <= k < ledger@.len() && k != id - 1 implies ledger@[k]
            == created@[k] by {
            let j = (k + 1) as u64;
            assert(ledger.has(j));
        }
        assert(ledger@ =~= created@.update(id - 1, ledger.record(id)));
        assert(ledger@ =~= old(ledger)@.push(ledger.record(id)));
    }
    Ok(id)
}

/// Resolves the origin of request `id` against the current cache.
pub fn map_origin(ledger: &Ledger, cache: &OriginCache, id: u64) -> (r: Result<
    Option<Origin>,
    RouteError,
>)
    ensures
        !ledger.has(id) ==> r == Err::<Option<Origin>, RouteError>(RouteError::UnknownRequest),
        ledger.has(id) ==> r == origin_for(cache, ledger.record(id)),
{
    let rec = match ledger.request(id) {
        Some(rec) => rec,
        None => return Err(RouteError::UnknownRequest),
    };
    match request_authority(&rec.uri, &rec.headers) {
        Ok(a) => match cache.resolve(&a) {
            Some(o) => match parse_uri_authority(&o.uri) {
                None => Err(RouteError::InvalidOriginUri),
                Some(_) => Ok(Some(o)),
            },
            None => Ok(None),
        },
        Err(e) => Err(RouteError::Resolve(e)),
    }
}

/// Takes request `id` from `UnmappedOrigin` on: a matching origin makes it
/// `Active`; no match marks it `Skipped`, with no retry and no alert. A
/// resolution failure, including a matching origin whose URI does not
/// parse, leaves the ledger as it was.
pub fn route(ledger: &mut Ledger, cache: &OriginCache, id: u64) -> (r: Result<Route, RouteError>)
    requires
        old(ledger).wf(),
    ensures
        final(ledger).wf(),
        final(ledger).next_attempt() == old(ledger).next_attempt(),
        final(ledger).others_unchanged(old(ledger), id),
        !old(ledger).has(id) ==> r == Err::<Route, RouteError>(RouteError::UnknownRequest)
            && final(ledger)@ == old(ledger)@,
        old(ledger).has(id) ==> match origin_for(cache, old(ledger).record(id)) {
            Ok(Some(o)) => r == Ok::<Route, RouteError>(Route::Forward(o)) && final(ledger)@ == old(
                ledger,
            )@,
            Ok(None) => r == Ok::<Route, RouteError>(Route::Skipped) && final(ledger).record(id)
                == (RequestRecord { state: RequestState::Skipped, ..old(ledger).record(id) }),
            Err(e) => r == Err::<Route, RouteError>(e) && final(ledger)@ == old(
                ledger,
            )@,
        },
{
    match map_origin(ledger, cache, id) {
        Ok(Some(origin)) => Ok(Route::Forward(origin)),
        Ok(None) => {
            let _ = ledger.set_state(id, RequestState::Skipped);
            Ok(Route::Skipped)
        },
        Err(e) => Err(e),
    }
}

/// `after` is the record `before` once an attempt with identifier `aid`
/// got a response with `status` at `now`: the attempt is appended with the
/// captured body, the state is the status's class and, unless it completed,
/// a retry is scheduled from the new attempt count.
pub open spec fn response_recorded(
    before: RequestRecord,
    after: RequestRecord,
    aid: u64,
    status: u16,
    body: Option<Vec<u8>>,
    now: u64,
) -> bool {
    let n = after.attempts@.len();
    let last = after.attempts@.last();
    &&& n == before.attempts@.len() + 1
    &&& after.attempts@.drop_last() == before.attempts@
    &&& last.id == aid
    &&& last.request_id == before.id
    &&& last.status == status
    &&& last.created_at == now
    &&& opt_bytes(last.body) == captured(opt_bytes(body))
    &&& after == RequestRecord {
        state: classify_spec(status),
        next_retry_at: if classify_spec(status) == RequestState::Completed {
            before.next_retry_at
        } else {
            Some(retry_at(now, n))
        },
        attempts: after.attempts,
        ..before
    }
}

/// Finishes one forwarding attempt of request `id` from its outcome.
///
/// A response is appended as an attempt and classified: 2xx records
/// `Completed`; 504 records `Timeout` and any other status `Failed`, both
/// with a retry scheduled and an alert once the attempt count reaches the
/// origin's threshold. A transport failure appends nothing, records `Panic`
/// with a retry scheduled, and always alerts. If the attempt cannot be
/// appended the ledger is left as it was.
pub fn conclude(ledger: &mut Ledger, id: u64, origin: &Origin, outcome: Outcome, now: u64) -> (r:
    Result<Conclusion, LedgerError>)
    requires
        old(ledger).wf(),
    ensures
        final(ledger).wf(),
        final(ledger).others_unchanged(old(ledger), id),
        !old(ledger).has(id) ==> r == Err::<Conclusion, LedgerError>(LedgerError::UnknownRequest),
        r is Err ==> final(ledger)@ == old(ledger)@,
        r is Ok && outcome is Response ==> final(ledger).next_attempt() == old(
            ledger,
        ).next_attempt() + 1,
        !(r is Ok && outcome is Response) ==> final(ledger).next_attempt() == old(
            ledger,
        ).next_attempt(),
        old(ledger).has(id) && (outcome is TransportError || old(ledger).next_attempt() < u64::MAX)
            ==> r is Ok,
        r is Ok ==> match outcome {
            Outcome::Response { status, body } => {
                let n = old(ledger).attempt_count(id) + 1;
                &&& final(ledger).record(id).attempts@.len() == n
                &&& response_recorded(
                    old(ledger).record(id),
                    final(ledger).record(id),
                    old(ledger).next_attempt(),
                    status,
                    body,
                    now,
                )
                &&& r->Ok_0 == Conclusion {
                    state: classify_spec(status),
                    alert: alert_due(*origin, classify_spec(status), n),
                }
            },
            Outcome::TransportError => {
                &&& final(ledger).record(id) == (RequestRecord {
                    state: RequestState::Panic,
                    next_retry_at: Some(retry_at(now, old(ledger).attempt_count(id))),
                    ..old(ledger).record(id)
                })
                &&& r->Ok_0 == Conclusion { state: RequestState::Panic, alert: true }
            },
        },
{
    match outcome {
        Outcome::TransportError => {
            match ledger.schedule_retry(id, RequestState::Panic, now) {
                Ok(()) => {},
                Err(e) => return Err(e),
            }
            Ok(Conclusion { state: RequestState::Panic, alert: true })
        },
        Outcome::Response { status, body } => {
            let state = classify(status);
            let ghost l0 = *ledger;
            let kept = capture_body(body);
            match ledger.append_attempt(id, status, kept, now) {
                Ok(_) => {},
                Err(e) => return Err(e),
            }
            proof {
                assert(crate::ledger::record_wf(l0@[id - 1], id - 1, l0.next_attempt()));
                assert(ledger.record(id).attempts@.drop_last() =~= l0.record(id).attempts@);
            }
            let ghost l1 = *ledger;
            if state == RequestState::Completed {
                let _ = ledger.set_state(id, RequestState::Completed);
                proof {
                    assert forall|j: u64| #[trigger] ledger.has(j) && j != id implies ledger.record(j)
                        == l0.record(j) by {
                        assert(l1.has(j));
                    }
                }
                return Ok(Conclusion { state, alert: false });
            }
            let _ = ledger.schedule_retry(id, state, now);
            proof {
                assert forall|j: u64| #[trigger] ledger.has(j) && j != id implies ledger.record(j)
                    == l0.record(j) by {
                    assert(l1.has(j));
                }
            }
            let alert = match origin.alert_threshold {
                Some(t) => match ledger.threshold_reached(id, t) {
                    Ok(b) => b,
                    Err(_) => true,
                },
                None => false,
            };
            Ok(Conclusion { state, alert })
        },
    }
}

/// A 2xx response completes the request with exactly one more attempt,
/// and schedules no retry.
pub proof fn lemma_success_completes(
    before: RequestRecord,
    after: RequestRecord,
    aid: u64,
    status: u16,
    body: Option<Vec<u8>>,
    now: u64,
)
    requires
        response_recorded(before, after, aid, status, body, now),
        200 <= status <= 299,
    ensures
        after.state == RequestState::Completed,
        after.attempts@.len() == before.attempts@.len() + 1,
        after.attempts@.last().status == status,
        after.next_retry_at == before.next_retry_at,
{
}

/// A timed-out forward records an attempt with status 504, moves the request
/// to `Timeout` and schedules a retry after the call time.
pub proof fn lemma_timeout_retries(
    before: RequestRecord,
    after: RequestRecord,
    aid: u64,
    body: Option<Vec<u8>>,
    now: u64,
)
    requires
        response_recorded(before, after, aid, TIMEOUT_STATUS, body, now),
    ensures
        after.state == RequestState::Timeout,
        after.attempts@.len() == before.attempts@.len() + 1,
        after.attempts@.last().status == 504,
        after.next_retry_at == Some(retry_at(now, after.attempts@.len())),
        now < u64::MAX ==> after.next_retry_at->0 > now,
{
    if now < u64::MAX {
        lemma_retry_after_now(now, after.attempts@.len());
    }
}

/// Any status outside 2xx other than 504 moves the request to `Failed`,
/// records the status, and schedules a retry after the call time; an origin
/// without a threshold is not alerted.
pub proof fn lemma_failure_retries(
    origin: Origin,
    before: RequestRecord,
    after: RequestRecord,
    aid: u64,
    status: u16,
    body: Option<Vec<u8>>,
    now: u64,
)
    requires
        response_recorded(before, after, aid, status, body, now),
        !(200 <= status <= 299),
        status != TIMEOUT_STATUS,
    ensures
        after.state == RequestState::Failed,
        after.attempts@.len() == before.attempts@.len() + 1,
        after.attempts@.last().status == status,
        after.next_retry_at == Some(retry_at(now, after.attempts@.len())),
        now < u64::MAX ==> after.next_retry_at->0 > now,
        origin.alert_threshold is None ==> !alert_due(origin, after.state, after.attempts@.len()),
{
    if now < u64::MAX {
        lemma_retry_after_now(now, after.attempts@.len());
    }
}

/// A transport failure, as `conclude` records it, moves the request to
/// `Panic`, appends no attempt, and schedules a retry after the call time.
pub proof fn lemma_panic_retries(before: RequestRecord, after: RequestRecord, now: u64)
    requires
        after == (RequestRecord {
            state: RequestState::Panic,
            next_retry_at: Some(retry_at(now, before.attempts@.len())),
            ..before
        }),
    ensures
        after.state == RequestState::Panic,
        after.attempts@ == before.attempts@,
        retryable(after.state),
        now < u64::MAX ==> after.next_retry_at->0 > now,
{
    if now < u64::MAX {
        lemma_retry_after_now(now, before.attempts@.len());
    }
}

/// A transport failure alerts whatever the origin's threshold and the
/// attempt count.
pub proof fn lemma_panic_always_alerts(origin: Origin, attempts: nat)
    ensures
        alert_due(origin, RequestState::Panic, attempts),
{
}

/// With a threshold of `t`, a failed or timed-out attempt alerts exactly
/// when the attempt count has reached `t`: never before, and first on the
/// attempt that brings the count to `t`.
pub proof fn lemma_alert_at_threshold(origin: Origin, state: RequestState, t: u32, attempts: nat)
    requires
        origin.alert_threshold == Some(t),
        state == RequestState::Failed || state == RequestState::Timeout,
    ensures
        alert_due(origin, state, attempts) <==> attempts >= t,
        attempts < t ==> !alert_due(origin, state, attempts),
        attempts + 1 == t ==> !alert_due(origin, state, attempts) && alert_due(
            origin,
            state,
            attempts + 1,
        ),
{
}

/// A skipped request is never picked up by a retry sweep, whatever the time.
pub proof fn lemma_skipped_never_retried(rec: RequestRecord, now: u64)
    requires
        rec.state == RequestState::Skipped,
    ensures
        !due(rec, now),
{
}

/// A `Failed`, `Timeout` or `Panic` request whose retry time has passed is
/// due; once claimed by a sweep it is not due again for any later sweep, and
/// it resolves its origin afresh against whatever cache is then current.
pub proof fn lemma_retry_reresolves(rec: RequestRecord, cache: OriginCache, now: u64, later: u64)
    requires
        retryable(rec.state),
        rec.next_retry_at matches Some(t) && t <= now,
    ensures
        due(rec, now),
        !due(claimed(rec), later),
        origin_for(&cache, claimed(rec)) == origin_for(&cache, rec),
{
}

} // verus!
