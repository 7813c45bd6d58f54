use vstd::prelude::*;
use crate::state::{RequestState, retryable};

verus! {

/// Delay before the first retry, in milliseconds.
pub const RETRY_BASE_MS: u64 = 1000;

/// Longest delay between two retries, in milliseconds.
pub const RETRY_MAX_MS: u64 = 3600000;

/// One recorded forwarding outcome of a request.
#[derive(Debug)]
pub struct Attempt {
    pub id: u64,
    pub request_id: u64,
    pub status: u16,
    pub body: Option<Vec<u8>>,
    pub created_at: u64,
}

/// A persisted request with its lifecycle state and attempt history.
#[derive(Debug)]
pub struct RequestRecord {
    pub id: u64,
    pub method: String,
    pub uri: String,
    pub headers: Vec<(String, String)>,
    pub body: Option<Vec<u8>>,
    pub state: RequestState,
    pub created_at: u64,
    pub next_retry_at: Option<u64>,
    pub attempts: Vec<Attempt>,
}

#[derive(Clone, Copy, Debug, PartialEq, Eq, Structural)]
pub enum LedgerError {
    /// No request has this identifier.
    UnknownRequest,
    /// No further identifier can be assigned.
    Full,
}

/// Delay before the next retry of a request with `attempts` recorded
/// attempts: it doubles with each attempt, up to `RETRY_MAX_MS`.
pub open spec fn retry_delay(attempts: nat) -> nat
    decreases attempts,
{
    if attempts == 0 {
        RETRY_BASE_MS as nat
    } else if 2 * retry_delay((attempts - 1) as nat) > RETRY_MAX_MS {
        RETRY_MAX_MS as nat
    } else {
        2 * retry_delay((attempts - 1) as nat)
    }
}

/// The time at which a request with `attempts` attempts, scheduled at
/// `now`, becomes due again (saturating at the largest time).
pub open spec fn retry_at(now: u64, attempts: nat) -> u64 {
    if now + retry_delay(attempts) > u64::MAX {
        u64::MAX
    } else {
        (now + retry_delay(attempts)) as u64
    }
}

proof fn lemma_delay_bounded(n: nat)
    ensures
        RETRY_BASE_MS <= retry_delay(n) <= RETRY_MAX_MS,
    decreases n,
{
    if n > 0 {
        lemma_delay_bounded((n - 1) as nat);
    }
}

/// A retry is scheduled strictly after the time of scheduling, unless that
/// time is already the largest one.
pub proof fn lemma_retry_after_now(now: u64, attempts: nat)
    requires
        now < u64::MAX,
    ensures
        retry_at(now, attempts) > now,
{
    lemma_delay_bounded(attempts);
}

proof fn lemma_delay_saturates(k: nat, n: nat)
    requires
        k <= n,
        retry_delay(k) == RETRY_MAX_MS,
    ensures
        retry_delay(n) == RETRY_MAX_MS,
    decreases n,
{
    if n > k {
        lemma_delay_saturates(k, (n - 1) as nat);
    }
}

/// The backoff delay for a request with `attempts` recorded attempts.
pub fn backoff_delay(attempts: usize) -> (r: u64)
    ensures
        r == retry_delay(attempts as nat),
{
    let mut d: u64 = RETRY_BASE_MS;
    let mut k: usize = 0;
    while k < attempts && d < RETRY_MAX_MS
        invariant
            k <= attempts,
            d == retry_delay(k as nat),
        decreases attempts - k,
    {
        proof {
            lemma_delay_bounded(k as nat);
        }
        if 2 * d > RETRY_MAX_MS {
            d = RETRY_MAX_MS;
        } else {
            d = 2 * d;
        }
        k = k + 1;
    }
    proof {
        if k < attempts {
            lemma_delay_saturates(k as nat, attempts as nat);
        }
    }
    d
}

/// Lifecycle state, attempt history and retry schedule of every request.
pub struct Ledger {
    requests: Vec<RequestRecord>,
    next_attempt_id: u64,
}

impl View for Ledger {
    type V = Seq<RequestRecord>;

    closed spec fn view(&self) -> Seq<RequestRecord> {
        self.requests@
    }
}

/// A request that the retry sweep should pick up at `now`.
pub open spec fn due(r: RequestRecord, now: u64) -> bool {
    &&& retryable(r.state)
    &&& r.next_retry_at is Some
    &&& r.next_retry_at->0 <= now
}

/// Record `i` is well formed at position `i`, with every attempt identifier
/// below `next`: its attempts belong to it and are ordered by identifier.
pub open spec fn record_wf(r: RequestRecord, i: int, next: u64) -> bool {
    &&& r.id == i + 1
    &&& forall|k: int|
        0 <= k < r.attempts@.len() ==> {
            &&& (#[trigger] r.attempts@[k]).request_id == i + 1
            &&& r.attempts@[k].id < next
        }
    &&& forall|k1: int, k2: int|
        0 <= k1 < k2 < r.attempts@.len() ==> #[trigger] r.attempts@[k1].id < #[trigger] r.attempts@[k2].id
}

pub open spec fn records_wf(s: Seq<RequestRecord>, next: u64) -> bool {
    forall|i: int| 0 <= i < s.len() ==> #[trigger] record_wf(s[i], i, next)
}

proof fn lemma_update_wf(s: Seq<RequestRecord>, t: Seq<RequestRecord>, i: int, next: u64)
    requires
        records_wf(s, next),
        0 <= i < s.len(),
        t.len() == s.len(),
        record_wf(t[i], i, next),
        forall|j: int| 0 <= j < s.len() && j != i ==> t[j] == s[j],
    ensures
        records_wf(t, next),
{
    assert forall|j: int| 0 <= j < t.len() implies #[trigger] record_wf(t[j], j, next) by {
        if j != i {
            assert(t[j] == s[j]);
            assert(record_wf(s[j], j, next));
        }
    }
}

proof fn lemma_raise_bound(s: Seq<RequestRecord>, n: u64, m: u64)
    requires
        records_wf(s, n),
        n <= m,
    ensures
        records_wf(s, m),
{
    assert forall|j: int| 0 <= j < s.len() implies #[trigger] record_wf(s[j], j, m) by {
        assert(record_wf(s[j], j, n));
        let r = s[j];
        assert forall|k: int| 0 <= k < r.attempts@.len() implies (#[trigger] r.attempts@[k]).id < m by {
            assert(r.attempts@[k].id < n);
        }
    }
}

/// A due record once the retry sweep has claimed it.
pub open spec fn claimed(r: RequestRecord) -> RequestRecord {
    RequestRecord { state: RequestState::Enqueued, next_retry_at: None, ..r }
}

impl Ledger {
    /// Identifiers are positions plus one; attempts belong to their request,
    /// are ordered by identifier, and all lie below the next one to be given.
    pub open spec fn wf(&self) -> bool {
        records_wf(self@, self.next_attempt())
    }

    /// The identifier that the next appended attempt receives.
    pub closed spec fn next_attempt(&self) -> u64 {
        self.next_attempt_id
    }

    pub open spec fn has(&self, id: u64) -> bool {
        1 <= id <= self@.len()
    }

    pub open spec fn record(&self, id: u64) -> RequestRecord {
        self@[id - 1]
    }

    pub open spec fn state_of(&self, id: u64) -> RequestState {
        self.record(id).state
    }

    /// The authoritative retry count of a request.
    pub open spec fn attempt_count(&self, id: u64) -> nat {
        self.record(id).attempts@.len()
    }

    /// `self` and `other` agree on every request but `id`.
    pub open spec fn others_unchanged(&self, other: &Ledger, id: u64) -> bool {
        &&& self@.len() == other@.len()
        &&& forall|j: u64| #[trigger] self.has(j) && j != id ==> self.record(j) == other.record(j)
    }

    pub fn new() -> (r: Ledger)
        ensures
            r.wf(),
            r@.len() == 0,
            r.next_attempt() == 1,
    {
        Ledger { requests: Vec::new(), next_attempt_id: 1 }
    }

    pub fn len(&self) -> (r: usize)
        ensures
            r == self@.len(),
    {
        self.requests.len()
    }

    /// The record of request `id`, if there is one.
    pub fn request(&self, id: u64) -> (r: Option<&RequestRecord>)
        ensures
            match r {
                Some(rec) => self.has(id) && *rec == self.record(id),
                None => !self.has(id),
            },
    {
        if id == 0 || id > self.requests.len() as u64 {
            None
        } else {
            Some(&self.requests[(id - 1) as usize])
        }
    }

    /// First persistence of a request: assigns the next identifier and
    /// records it in state `Received`.
    pub fn create(
        &mut self,
        method: String,
        uri: String,
        headers: Vec<(String, String)>,
        body: Option<Vec<u8>>,
        now: u64,
    ) -> (r: Result<u64, LedgerError>)
        requires
            old(self).wf(),
        ensures
            final(self).wf(),
            final(self).next_attempt() == old(self).next_attempt(),
            match r {
                Ok(id) => {
                    &&& id == old(self)@.len() + 1
                    &&& final(self)@ == old(self)@.push(final(self).record(id))
                    &&& final(self).record(id) == (RequestRecord {
                        id,
                        method,
                        uri,
                        headers,
                        body,
                        state: RequestState::Received,
                        created_at: now,
                        next_retry_at: None,
                        attempts: final(self).record(id).attempts,
                    })
                    &&& final(self).attempt_count(id) == 0
                },
                Err(e) => {
                    &&& e == LedgerError::Full
                    &&& old(self)@.len() >= u64::MAX
                    &&& final(self)@ == old(self)@
                },
            },
            old(self)@.len() < u64::MAX ==> r is Ok,
    {
        let n = self.requests.len();
        if n as u64 >= u64::MAX {
            return Err(LedgerError::Full);
        }
        let id = n as u64 + 1;
        let rec = RequestRecord {
            id,
            method,
            uri,
            headers,
            body,
            state: RequestState::Received,
            created_at: now,
            next_retry_at: None,
            attempts: Vec::new(),
        };
        self.requests.push(rec);
        proof {
            assert forall|j: int| 0 <= j < self@.len() implies #[trigger] record_wf(
                self@[j],
                j,
                self.next_attempt_id,
            ) by {
                if j < n {
                    assert(self@[j] == old(self)@[j]);
                    assert(record_wf(old(self)@[j], j, self.next_attempt_id));
                }
            }
        }
        Ok(id)
    }

    /// Overwrites the lifecycle state of request `id`.
    pub fn set_state(&mut self, id: u64, state: RequestState) -> (r: Result<(), LedgerError>)
        requires
            old(self).wf(),
        ensures
            final(self).wf(),
            final(self).next_attempt() == old(self).next_attempt(),
            final(self).others_unchanged(old(self), id),
            r is Ok <==> old(self).has(id),
            r is Err ==> r == Err::<(), LedgerError>(LedgerError::UnknownRequest) && final(self)@
                == old(self)@,
            r is Ok ==> final(self).record(id) == (RequestRecord {
                state,
                ..old(self).record(id)
            }),
    {
        if id == 0 || id > self.requests.len() as u64 {
            return Err(LedgerError::UnknownRequest);
        }
        let i = (id - 1) as usize;
        proof {
            assert(record_wf(old(self)@[i as int], i as int, self.next_attempt_id));
        }
        self.requests[i].state = state;
        proof {
            lemma_update_wf(old(self)@, self@, i as int, self.next_attempt_id);
        }
        Ok(())
    }

    /// Appends one attempt to request `id` and returns its identifier.
    pub fn append_attempt(
        &mut self,
        id: u64,
        status: u16,
        body: Option<Vec<u8>>,
        now: u64,
    ) -> (r: Result<u64, LedgerError>)
        requires
            old(self).wf(),
        ensures
            final(self).wf(),
            old(self).has(id) && old(self).next_attempt() < u64::MAX ==> r is Ok,
            r is Ok ==> final(self).next_attempt() == old(self).next_attempt() + 1,
            r is Err ==> final(self).next_attempt() == old(self).next_attempt(),
            final(self).others_unchanged(old(self), id),
            !old(self).has(id) ==> r == Err::<u64, LedgerError>(LedgerError::UnknownRequest)
                && final(self)@ == old(self)@,
            r is Err ==> final(self)@ == old(self)@,
            match r {
                Ok(aid) => {
                    &&& old(self).has(id)
                    &&& aid == old(self).next_attempt()
                    &&& forall|j: u64, k: int|
                        old(self).has(j) && 0 <= k < old(self).record(j).attempts@.len()
                            ==> (#[trigger] old(self).record(j).attempts@[k]).id < aid
                    &&& final(self).record(id) == (RequestRecord {
                        attempts: final(self).record(id).attempts,
                        ..old(self).record(id)
                    })
                    &&& final(self).record(id).attempts@ == old(self).record(id).attempts@.push(
                        Attempt { id: aid, request_id: id, status, body, created_at: now },
                    )
                },
                Err(_) => true,
            },
    {
        if id == 0 || id > self.requests.len() as u64 {
            return Err(LedgerError::UnknownRequest);
        }
        if self.next_attempt_id == u64::MAX {
            return Err(LedgerError::Full);
        }
        let aid = self.next_attempt_id;
        self.next_attempt_id = aid + 1;
        let i = (id - 1) as usize;
        self.requests[i].attempts.push(
            Attempt { id: aid, request_id: id, status, body, created_at: now },
        );
        proof {
            let r = self@[i as int];
            let r0 = old(self)@[i as int];
            let n0 = r0.attempts@.len();
            assert(record_wf(r0, i as int, aid));
            assert forall|k: int| 0 <= k < r.attempts@.len() implies {
                &&& (#[trigger] r.attempts@[k]).request_id == i + 1
                &&& r.attempts@[k].id < aid + 1
            } by {
                if k < n0 {
                    assert(r.attempts@[k] == r0.attempts@[k]);
                }
            }
            assert forall|k1: int, k2: int|
                0 <= k1 < k2 < r.attempts@.len() implies #[trigger] r.attempts@[k1].id
                < #[trigger] r.attempts@[k2].id by {
                assert(r.attempts@[k1] == r0.attempts@[k1]);
                if k2 < n0 {
                    assert(r.attempts@[k2] == r0.attempts@[k2]);
                }
            }
            assert(record_wf(r, i as int, (aid + 1) as u64));
            lemma_raise_bound(old(self)@, aid, (aid + 1) as u64);
            lemma_update_wf(old(self)@, self@, i as int, self.next_attempt_id);
            assert forall|j: u64, k: int|
                old(self).has(j) && 0 <= k < old(self).record(j).attempts@.len()
                    implies (#[trigger] old(self).record(j).attempts@[k]).id < aid by {
                assert(record_wf(old(self)@[j - 1], j - 1, aid));
            }
        }
        Ok(aid)
    }

    /// Records a state that ends the current attempt and the time at which
    /// the request becomes due again, from its attempt count.
    pub fn schedule_retry(&mut self, id: u64, state: RequestState, now: u64) -> (r: Result<
        (),
        LedgerError,
    >)
        requires
            old(self).wf(),
        ensures
            final(self).wf(),
            final(self).next_attempt() == old(self).next_attempt(),
            final(self).others_unchanged(old(self), id),
            r is Ok <==> old(self).has(id),
            r is Err ==> r == Err::<(), LedgerError>(LedgerError::UnknownRequest) && final(self)@
                == old(self)@,
            r is Ok ==> final(self).record(id) == (RequestRecord {
                state,
                next_retry_at: Some(retry_at(now, old(self).attempt_count(id))),
                ..old(self).record(id)
            }),
    {
        if id == 0 || id > self.requests.len() as u64 {
            return Err(LedgerError::UnknownRequest);
        }
        let i = (id - 1) as usize;
        let delay = backoff_delay(self.requests[i].attempts.len());
        self.requests[i].state = state;
        self.requests[i].next_retry_at = Some(now.saturating_add(delay));
        proof {
            assert(record_wf(old(self)@[i as int], i as int, self.next_attempt_id));
            lemma_update_wf(old(self)@, self@, i as int, self.next_attempt_id);
        }
        Ok(())
    }

    /// Claims every request that is due at `now`: its state becomes
    /// `Enqueued` and its retry time is cleared, so that no later sweep picks
    /// it up again. Returns the claimed identifiers in increasing order.
    pub fn sweep(&mut self, now: u64) -> (r: Vec<u64>)
        requires
            old(self).wf(),
        ensures
            final(self).wf(),
            final(self).next_attempt() == old(self).next_attempt(),
            final(self)@.len() == old(self)@.len(),
            forall|id: u64| #[trigger]
                old(self).has(id) ==> (r@.contains(id) <==> due(old(self).record(id), now)),
            forall|k: int| 0 <= k < r@.len() ==> #[trigger] old(self).has(r@[k]),
            forall|j: int, k: int| 0 <= j < k < r@.len() ==> r@[j] < r@[k],
            forall|id: u64| #[trigger]
                old(self).has(id) ==> final(self).record(id) == if due(old(self).record(id), now) {
                    claimed(old(self).record(id))
                } else {
                    old(self).record(id)
                },
    {
        let mut out: Vec<u64> = Vec::new();
        let mut i: usize = 0;
        while i < self.requests.len()
            invariant
                records_wf(self@, self.next_attempt_id),
                self.next_attempt_id == old(self).next_attempt_id,
                self@.len() == old(self)@.len(),
                i <= self@.len(),
                forall|j: int|
                    0 <= j < self@.len() ==> #[trigger] self@[j] == if j < i && due(
                        old(self)@[j],
                        now,
                    ) {
                        claimed(old(self)@[j])
                    } else {
                        old(self)@[j]
                    },
                forall|id: u64|
                    1 <= id <= i ==> (#[trigger] out@.contains(id) <==> due(old(self)@[id - 1], now)),
                forall|k: int| 0 <= k < out@.len() ==> 1 <= #[trigger] out@[k] <= i,
                forall|j: int, k: int| 0 <= j < k < out@.len() ==> out@[j] < out@[k],
            decreases self@.len() - i,
        {
            let ghost before = self@;
            let ghost out0 = out@;
            let is_due = self.requests[i].state.is_retryable() && match self.requests[i].next_retry_at {
                Some(t) => t <= now,
                None => false,
            };
            if is_due {
                proof {
                    assert(record_wf(self@[i as int], i as int, self.next_attempt_id));
                }
                self.requests[i].state = RequestState::Enqueued;
                self.requests[i].next_retry_at = None;
                proof {
                    lemma_update_wf(before, self@, i as int, self.next_attempt_id);
                    assert(self@[i as int] =~= claimed(old(self)@[i as int]));
                }
                out.push((i + 1) as u64);
            }
            proof {
                assert forall|id: u64| 1 <= id <= i + 1 implies (#[trigger] out@.contains(id)
                    <==> due(old(self)@[id - 1], now)) by {
                    if id <= i {
                        if out@.contains(id) && is_due && id != i + 1 {
                            let k = choose|k: int| 0 <= k < out@.len() && out@[k] == id;
                            assert(k < out0.len());
                            assert(out0.contains(id));
                        }
                        if out0.contains(id) {
                            let k = choose|k: int| 0 <= k < out0.len() && out0[k] == id;
                            assert(out@[k] == id);
                        }
                    } else if is_due {
                        assert(out@[out@.len() - 1] == id);
                    } else if out@.contains(id) {
                        let k = choose|k: int| 0 <= k < out@.len() && out@[k] == id;
                        assert(out0[k] <= i);
                    }
                }
            }
            i = i + 1;
        }
        proof {
            assert forall|id: u64| #[trigger]
                old(self).has(id) implies (out@.contains(id) <==> due(old(self).record(id), now)) by {
                assert(1 <= id <= i);
            }
            assert forall|id: u64| #[trigger]
                old(self).has(id) implies self.record(id) == if due(old(self).record(id), now) {
                    claimed(old(self).record(id))
                } else {
                    old(self).record(id)
                } by {
                assert(self@[id - 1] == if (id - 1) < i && due(old(self)@[id - 1], now) {
                    claimed(old(self)@[id - 1])
                } else {
                    old(self)@[id - 1]
                });
            }
            assert forall|k: int| 0 <= k < out@.len() implies #[trigger] old(self).has(out@[k]) by {
                assert(1 <= out@[k] <= i);
            }
        }
        out
    }

    /// Whether request `id` has at least `threshold` recorded attempts.
    pub fn threshold_reached(&self, id: u64, threshold: u32) -> (r: Result<bool, LedgerError>)
        ensures
            match r {
                Ok(b) => self.has(id) && b == (self.attempt_count(id) >= threshold),
                Err(e) => !self.has(id) && e == LedgerError::UnknownRequest,
            },
    {
        if id == 0 || id > self.requests.len() as u64 {
            return Err(LedgerError::UnknownRequest);
        }
        Ok(self.requests[(id - 1) as usize].attempts.len() >= threshold as usize)
    }
}

} // verus!
