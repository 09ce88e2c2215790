use vstd::prelude::*;

use crate::error::{
    query_class, query_message, refresh_message, ErrorClass, QueryError, RefreshError,
    ServiceError,
};

verus! {

/// How long a refreshed mirror stays fresh, in milliseconds.
pub const DEFAULT_TTL_MS: u64 = 300000;

/// What a request must do before its query runs.
#[derive(PartialEq, Eq, Structural, Clone, Copy, Debug)]
pub enum Step {
    /// The mirror is stale: fetch upstream and replace it first.
    Refresh,
    /// The mirror is fresh: run the query directly.
    Query,
}

/// Gates refreshes of the mirror by a time to live. Times are milliseconds
/// on a monotonic clock.
#[derive(Debug, Clone, Copy, PartialEq, Eq)]
pub struct Coordinator {
    /// When the last successful refresh completed; `None` before the first.
    pub last_refresh: Option<u64>,
    /// How long a refresh stays fresh.
    pub ttl: u64,
}

impl Coordinator {
    /// The mirror is stale when it was never refreshed, or when more than
    /// the time to live has passed since the last refresh.
    pub open spec fn stale_at(&self, now: u64) -> bool {
        match self.last_refresh {
            None => true,
            Some(t) => now > t && now - t > self.ttl,
        }
    }

    /// A coordinator that has never refreshed, so the first request refreshes.
    pub fn new(ttl: u64) -> (r: Coordinator)
        ensures
            r.last_refresh is None,
            r.ttl == ttl,
    {
        Coordinator { last_refresh: None, ttl }
    }

    /// Whether the mirror must be refreshed at `now`.
    pub fn is_stale(&self, now: u64) -> (r: bool)
        ensures
            r == self.stale_at(now),
    {
        match self.last_refresh {
            None => true,
            Some(t) => now > t && now - t > self.ttl,
        }
    }

    /// The first step of a request that arrives at `now`.
    pub fn begin(&self, now: u64) -> (r: Step)
        ensures
            r == (if self.stale_at(now) { Step::Refresh } else { Step::Query }),
    {
        if self.is_stale(now) {
            Step::Refresh
        } else {
            Step::Query
        }
    }

    /// Records the outcome of a refresh attempt that completed at `now`.
    /// Success starts a new fresh period; failure leaves the state as it was,
    /// so the next request retries, and surfaces as an internal failure.
    pub fn finish_refresh(&mut self, outcome: Result<(), RefreshError>, now: u64) -> (r: Result<
        (),
        ServiceError,
    >)
        ensures
            final(self).ttl == old(self).ttl,
            outcome is Ok ==> r is Ok && final(self).last_refresh == Some(now),
            outcome is Err ==> *final(self) == *old(self) && r is Err
                && r->Err_0.class == ErrorClass::Internal
                && r->Err_0.message == refresh_message(outcome->Err_0),
    {
        match outcome {
            Ok(()) => {
                self.last_refresh = Some(now);
                Ok(())
            },
            Err(e) => Err(e.into_service_error()),
        }
    }

    /// Surfaces the result of the caller's query. The refresh state is not
    /// touched, whatever the result.
    pub fn finish_query<T>(&self, result: Result<T, QueryError>) -> (r: Result<T, ServiceError>)
        ensures
            result is Ok ==> r == Ok::<T, ServiceError>(result->Ok_0),
            result is Err ==> r is Err && r->Err_0.class == query_class(result->Err_0)
                && r->Err_0.message == query_message(result->Err_0),
    {
        match result {
            Ok(v) => Ok(v),
            Err(e) => Err(e.into_service_error()),
        }
    }
}

/// The state after a refresh that succeeded at `now`, as `finish_refresh`
/// leaves it.
pub open spec fn refreshed(c: Coordinator, now: u64) -> Coordinator {
    Coordinator { last_refresh: Some(now), ttl: c.ttl }
}

/// Serves requests that arrive at `times`, one after another, where every
/// refresh succeeds at once: the final state and how many fetches were made.
pub open spec fn serve(c: Coordinator, times: Seq<u64>) -> (Coordinator, nat)
    decreases times.len(),
{
    if times.len() == 0 {
        (c, 0)
    } else {
        let (prev, n) = serve(c, times.drop_last());
        let now = times.last();
        if prev.stale_at(now) {
            (refreshed(prev, now), n + 1)
        } else {
            (prev, n)
        }
    }
}

/// The times never go backwards.
pub open spec fn ordered(times: Seq<u64>) -> bool {
    forall|i: int, j: int| 0 <= i <= j < times.len() ==> times[i] <= times[j]
}

/// All times lie within `ttl` of the first.
pub open spec fn within(times: Seq<u64>, ttl: u64) -> bool {
    forall|i: int| 0 <= i < times.len() ==> #[trigger] times[i] - times[0] <= ttl
}

/// A refreshed mirror stays fresh for the whole time to live, and is stale
/// once more than the time to live has passed.
pub proof fn lemma_fresh_for_ttl(c: Coordinator, t: u64, now: u64)
    requires
        c.last_refresh == Some(t),
        t <= now,
    ensures
        c.stale_at(now) <==> now - t > c.ttl,
{
}

/// A failed refresh leaves the state as it was, so a stale mirror stays stale
/// and every later request retries the fetch.
pub proof fn lemma_failure_retries(c: Coordinator, now: u64, later: u64)
    requires
        c.stale_at(now),
        now <= later,
    ensures
        c.stale_at(later),
{
}

proof fn lemma_serve_window(c: Coordinator, times: Seq<u64>)
    requires
        times.len() > 0,
        ordered(times),
        within(times, c.ttl),
    ensures
        serve(c, times).0.ttl == c.ttl,
        serve(c, times).1 <= 1,
        serve(c, times).1 == 1 ==> (exists|x: u64|
            serve(c, times).0.last_refresh == Some(x) && times[0] <= x),
        serve(c, times).1 == 0 ==> serve(c, times).0 == c && !c.stale_at(times[0]),
        c.stale_at(times[0]) ==> serve(c, times).1 == 1,
    decreases times.len(),
{
    let pre = times.drop_last();
    if pre.len() == 0 {
        assert(serve(c, pre) == (c, 0nat));
    } else {
        assert(ordered(pre));
        assert(within(pre, c.ttl));
        lemma_serve_window(c, pre);
        let (prev, n) = serve(c, pre);
        let now = times.last();
        assert(now - times[0] <= c.ttl);
        assert(pre[0] == times[0]);
        if n == 1 {
            let x = choose|x: u64| prev.last_refresh == Some(x) && times[0] <= x;
            assert(times[0] <= now);
            assert(!prev.stale_at(now));
        } else {
            assert(n == 0);
            if prev.stale_at(now) {
                assert(times[0] <= now);
                assert(serve(c, times).0.last_refresh == Some(now));
            }
        }
    }
}

/// Requests that arrive within one time to live of each other cause at most
/// one fetch, and exactly one when the mirror was stale when the first came.
pub proof fn lemma_one_fetch_per_window(c: Coordinator, times: Seq<u64>)
    requires
        times.len() > 0,
        ordered(times),
        within(times, c.ttl),
    ensures
        serve(c, times).1 <= 1,
        c.stale_at(times[0]) ==> serve(c, times).1 == 1,
{
    lemma_serve_window(c, times);
}

/// Two requests more than one time to live apart each fetch, starting from a
/// coordinator that has never refreshed.
pub proof fn lemma_two_fetches_across_ttl(ttl: u64, a: u64, b: u64)
    requires
        a <= b,
        b - a > ttl,
    ensures
        serve(Coordinator { last_refresh: None, ttl }, seq![a, b]).1 == 2,
{
    let c = Coordinator { last_refresh: None, ttl };
    let times = seq![a, b];
    assert(times.drop_last() =~= seq![a]);
    assert(seq![a].drop_last() =~= Seq::<u64>::empty());
    assert(serve(c, Seq::<u64>::empty()) == (c, 0nat));
    assert(serve(c, seq![a]) == (refreshed(c, a), 1nat));
    assert(refreshed(c, a).stale_at(b));
}

/// SQL that fails to prepare or to run is the caller's fault, and is answered
/// with Bad Request.
pub proof fn lemma_bad_sql_is_callers(m: String)
    ensures
        query_class(QueryError::Syntax(m)) == ErrorClass::Caller,
        crate::error::status_of(query_class(QueryError::Syntax(m))) == 400,
        query_class(QueryError::Execution(m)) == ErrorClass::Caller,
{
}

} // verus!
