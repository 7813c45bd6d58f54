use vstd::prelude::*;

verus! {

/// Lifecycle state of a request, as recorded in the ledger.
#[derive(Clone, Copy, Debug, PartialEq, Eq, Structural)]
pub enum RequestState {
    Received,
    Created,
    Enqueued,
    UnmappedOrigin,
    Active,
    Completed,
    Failed,
    Timeout,
    Panic,
    Skipped,
}

/// States that end one attempt but leave the request eligible for a retry.
pub open spec fn retryable(s: RequestState) -> bool {
    s == RequestState::Failed || s == RequestState::Timeout || s == RequestState::Panic
}

/// States after which nothing more happens to a request.
pub open spec fn terminal(s: RequestState) -> bool {
    s == RequestState::Completed || s == RequestState::Skipped
}

impl RequestState {
    pub fn is_retryable(&self) -> (r: bool)
        ensures
            r == retryable(*self),
    {
        match self {
            RequestState::Failed | RequestState::Timeout | RequestState::Panic => true,
            _ => false,
        }
    }

    pub fn is_terminal(&self) -> (r: bool)
        ensures
            r == terminal(*self),
    {
        match self {
            RequestState::Completed | RequestState::Skipped => true,
            _ => false,
        }
    }
}

} // verus!
