//! The service layer's request-execution policy: concurrency and rate
//! limits as configuration, retry classification of transport outcomes,
//! and the bounded retry budget.

use vstd::prelude::*;

use crate::host::random_in_range;

verus! {

/// The concurrency strategy for in-flight requests.
#[derive(PartialEq, Eq, Structural, Clone, Copy, Debug)]
pub enum Concurrency {
    /// No limit on in-flight requests.
    Unlimited,
    /// Exactly this many permits.
    Fixed(usize),
    /// An additive-increase multiplicative-decrease controller.
    Adaptive,
}

/// User-facing request-layer overrides; unset fields fall back to the
/// sink's defaults, then to the global defaults.
pub struct RequestConfig {
    pub concurrency: Option<Concurrency>,
    pub timeout_secs: Option<u64>,
    pub rate_limit_duration_secs: Option<u64>,
    pub rate_limit_num: Option<u64>,
    pub retry_attempts: Option<usize>,
    pub retry_max_duration_secs: Option<u64>,
    pub retry_initial_backoff_secs: Option<u64>,
}

/// Fully resolved request-layer settings.
pub struct RequestSettings {
    pub concurrency: Concurrency,
    pub timeout_secs: u64,
    pub rate_limit_duration_secs: u64,
    pub rate_limit_num: u64,
    pub retry_attempts: usize,
    pub retry_max_duration_secs: u64,
    pub retry_initial_backoff_secs: u64,
}

pub open spec fn opt_or<T>(a: Option<T>, b: T) -> T {
    match a {
        Some(v) => v,
        None => b,
    }
}

impl RequestConfig {
    pub fn unspecified() -> (r: RequestConfig)
        ensures
            r.concurrency is None,
            r.timeout_secs is None,
            r.rate_limit_duration_secs is None,
            r.rate_limit_num is None,
            r.retry_attempts is None,
            r.retry_max_duration_secs is None,
            r.retry_initial_backoff_secs is None,
    {
        RequestConfig {
            concurrency: None,
            timeout_secs: None,
            rate_limit_duration_secs: None,
            rate_limit_num: None,
            retry_attempts: None,
            retry_max_duration_secs: None,
            retry_initial_backoff_secs: None,
        }
    }

    /// Resolves the configuration against a sink's defaults; what neither
    /// sets falls back to the global defaults: unlimited concurrency, a 60
    /// second timeout, 5 dispatches per second, unbounded attempts within
    /// a 3600 second retry budget, and a 1 second initial backoff.
    pub fn unwrap_with(&self, defaults: &RequestConfig) -> (r: RequestSettings)
        ensures
            r.concurrency == opt_or(self.concurrency, opt_or(defaults.concurrency, Concurrency::Unlimited)),
            r.timeout_secs == opt_or(self.timeout_secs, opt_or(defaults.timeout_secs, 60u64)),
            r.rate_limit_duration_secs == opt_or(
                self.rate_limit_duration_secs,
                opt_or(defaults.rate_limit_duration_secs, 1u64),
            ),
            r.rate_limit_num == opt_or(self.rate_limit_num, opt_or(defaults.rate_limit_num, 5u64)),
            r.retry_attempts == opt_or(
                self.retry_attempts,
                opt_or(defaults.retry_attempts, usize::MAX),
            ),
            r.retry_max_duration_secs == opt_or(
                self.retry_max_duration_secs,
                opt_or(defaults.retry_max_duration_secs, 3600u64),
            ),
            r.retry_initial_backoff_secs == opt_or(
                self.retry_initial_backoff_secs,
                opt_or(defaults.retry_initial_backoff_secs, 1u64),
            ),
    {
        RequestSettings {
            concurrency: match self.concurrency {
                Some(v) => v,
                None => match defaults.concurrency {
                    Some(v) => v,
                    None => Concurrency::Unlimited,
                },
            },
            timeout_secs: match self.timeout_secs {
                Some(v) => v,
                None => match defaults.timeout_secs {
                    Some(v) => v,
                    None => 60,
                },
            },
            rate_limit_duration_secs: match self.rate_limit_duration_secs {
                Some(v) => v,
                None => match defaults.rate_limit_duration_secs {
                    Some(v) => v,
                    None => 1,
                },
            },
            rate_limit_num: match self.rate_limit_num {
                Some(v) => v,
                None => match defaults.rate_limit_num {
                    Some(v) => v,
                    None => 5,
                },
            },
            retry_attempts: match self.retry_attempts {
                Some(v) => v,
                None => match defaults.retry_attempts {
                    Some(v) => v,
                    None => usize::MAX,
                },
            },
            retry_max_duration_secs: match self.retry_max_duration_secs {
                Some(v) => v,
                None => match defaults.retry_max_duration_secs {
                    Some(v) => v,
                    None => 3600,
                },
            },
            retry_initial_backoff_secs: match self.retry_initial_backoff_secs {
                Some(v) => v,
                None => match defaults.retry_initial_backoff_secs {
                    Some(v) => v,
                    None => 1,
                },
            },
        }
    }
}

/// The archives path limits itself to 50 in-flight requests and 250
/// dispatches per rate-limit window.
pub fn archives_default_request() -> (r: RequestConfig)
    ensures
        r.concurrency == Some(Concurrency::Fixed(50usize)),
        r.rate_limit_num == Some(250u64),
        r.timeout_secs is None,
        r.rate_limit_duration_secs is None,
        r.retry_attempts is None,
        r.retry_max_duration_secs is None,
        r.retry_initial_backoff_secs is None,
{
    RequestConfig {
        concurrency: Some(Concurrency::Fixed(50)),
        rate_limit_num: Some(250),
        timeout_secs: None,
        rate_limit_duration_secs: None,
        retry_attempts: None,
        retry_max_duration_secs: None,
        retry_initial_backoff_secs: None,
    }
}

/// The metrics path runs unbounded concurrency with 5 retry attempts.
pub fn metrics_default_request() -> (r: RequestConfig)
    ensures
        r.concurrency == Some(Concurrency::Unlimited),
        r.retry_attempts == Some(5usize),
        r.timeout_secs is None,
        r.rate_limit_duration_secs is None,
        r.rate_limit_num is None,
        r.retry_max_duration_secs is None,
        r.retry_initial_backoff_secs is None,
{
    RequestConfig {
        concurrency: Some(Concurrency::Unlimited),
        retry_attempts: Some(5),
        timeout_secs: None,
        rate_limit_duration_secs: None,
        rate_limit_num: None,
        retry_max_duration_secs: None,
        retry_initial_backoff_secs: None,
    }
}

/// How the retry oracle classifies one attempt's outcome.
#[derive(PartialEq, Eq, Structural, Clone, Copy, Debug)]
pub enum RetryOutcome {
    Success,
    RetryableFailure,
    FatalFailure,
}

/// A transport-level attempt result, as the service layer sees it.
#[derive(PartialEq, Eq, Structural, Clone, Copy, Debug)]
pub enum TransportEvent {
    ConnectionError,
    Timeout,
    Status(u16),
}

/// The classification of an HTTP status: 2xx succeeds; 408, 429, 500,
/// 502, 503 and 504 are retryable; everything else is fatal.
pub open spec fn spec_classify_status(status: u16) -> RetryOutcome {
    if 200 <= status < 300 {
        RetryOutcome::Success
    } else if status == 408 || status == 429 || status == 500 || status == 502 || status == 503
        || status == 504 {
        RetryOutcome::RetryableFailure
    } else {
        RetryOutcome::FatalFailure
    }
}

pub fn classify_http_status(status: u16) -> (r: RetryOutcome)
    ensures
        r == spec_classify_status(status),
{
    if 200 <= status && status < 300 {
        RetryOutcome::Success
    } else if status == 408 || status == 429 || status == 500 || status == 502 || status == 503
        || status == 504 {
        RetryOutcome::RetryableFailure
    } else {
        RetryOutcome::FatalFailure
    }
}

/// Connection errors and timeouts are retryable; a response goes by its
/// status.
pub fn classify_transport_event(ev: TransportEvent) -> (r: RetryOutcome)
    ensures
        r == match ev {
            TransportEvent::ConnectionError => RetryOutcome::RetryableFailure,
            TransportEvent::Timeout => RetryOutcome::RetryableFailure,
            TransportEvent::Status(s) => spec_classify_status(s),
        },
{
    match ev {
        TransportEvent::ConnectionError => RetryOutcome::RetryableFailure,
        TransportEvent::Timeout => RetryOutcome::RetryableFailure,
        TransportEvent::Status(s) => classify_http_status(s),
    }
}

/// The exponential backoff before a retry: 1 second doubled per attempt,
/// capped at 30 seconds.
pub open spec fn spec_backoff_millis(attempt: int) -> int
    decreases attempt,
{
    if attempt <= 0 {
        1000
    } else if spec_backoff_millis(attempt - 1) >= 15_000 {
        30_000
    } else {
        2 * spec_backoff_millis(attempt - 1)
    }
}

pub fn backoff_millis(attempt: u32) -> (r: u64)
    ensures
        r as int == spec_backoff_millis(attempt as int),
{
    let mut i: u32 = 0;
    let mut b: u64 = 1000;
    while i < attempt
        invariant
            i <= attempt,
            b as int == spec_backoff_millis(i as int),
            1000 <= b <= 30_000,
        decreases attempt - i,
    {
        if b >= 15_000 {
            b = 30_000;
        } else {
            b = 2 * b;
        }
        i += 1;
    }
    b
}

/// Applies the ±25% jitter: the result stays within a quarter of the base
/// on either side. Nothing more holds of a random draw.
pub fn backoff_with_jitter(base: u64) -> (r: u64)
    requires
        base <= 0xc000_0000_0000_0000,
    ensures
        base - base / 4 <= r <= base + base / 4,
{
    random_in_range(base - base / 4, base + base / 4)
}

/// The bounded retry budget for one request.
pub struct RetryPolicy {
    pub max_attempts: usize,
    pub max_duration_millis: u64,
}

/// The retries spent so far on one request.
pub struct RetryState {
    pub attempts: usize,
    pub elapsed_millis: u64,
}

/// The budget bounds every retry state observes.
pub open spec fn retry_wf(st: RetryState, p: RetryPolicy) -> bool {
    &&& st.attempts <= p.max_attempts
    &&& st.elapsed_millis <= p.max_duration_millis
}

/// One retry request at the specification level: an attempt is granted
/// only while both budgets have room for it.
pub open spec fn spec_retry_step(st: RetryState, p: RetryPolicy, delay: u64) -> (RetryState, bool) {
    if st.attempts < p.max_attempts && delay <= p.max_duration_millis - st.elapsed_millis {
        (
            RetryState {
                attempts: (st.attempts + 1) as usize,
                elapsed_millis: (st.elapsed_millis + delay) as u64,
            },
            true,
        )
    } else {
        (st, false)
    }
}

impl RetryState {
    pub fn new() -> (r: RetryState)
        ensures
            r.attempts == 0,
            r.elapsed_millis == 0,
    {
        RetryState { attempts: 0, elapsed_millis: 0 }
    }

    /// Asks for one more attempt after the given backoff delay; the
    /// request is granted only within the budget.
    pub fn record_attempt(&mut self, p: &RetryPolicy, delay: u64) -> (granted: bool)
        requires
            retry_wf(*old(self), *p),
        ensures
            retry_wf(*final(self), *p),
            (*final(self), granted) == spec_retry_step(*old(self), *p, delay),
    {
        if self.attempts < p.max_attempts && delay <= p.max_duration_millis - self.elapsed_millis {
            self.attempts = self.attempts + 1;
            self.elapsed_millis = self.elapsed_millis + delay;
            true
        } else {
            false
        }
    }
}

/// The state after a whole sequence of retry requests.
pub open spec fn spec_retry_run(st: RetryState, p: RetryPolicy, delays: Seq<u64>) -> RetryState
    decreases delays.len(),
{
    if delays.len() == 0 {
        st
    } else {
        spec_retry_step(spec_retry_run(st, p, delays.drop_last()), p, delays.last()).0
    }
}

/// For every retryable outcome and every sequence of granted attempts,
/// the attempt count stays at or below `retry_attempts` and the total
/// retry time at or below `retry_max_duration`.
pub proof fn lemma_retry_budget(st: RetryState, p: RetryPolicy, delays: Seq<u64>)
    requires
        retry_wf(st, p),
    ensures
        retry_wf(spec_retry_run(st, p, delays), p),
        spec_retry_run(st, p, delays).attempts <= p.max_attempts,
        spec_retry_run(st, p, delays).elapsed_millis <= p.max_duration_millis,
    decreases delays.len(),
{
    if delays.len() > 0 {
        lemma_retry_budget(st, p, delays.drop_last());
    }
}


/// What the service layer does with one finished attempt.
#[derive(PartialEq, Eq, Structural, Clone, Copy, Debug)]
pub enum AttemptDisposition {
    /// The attempt succeeded: the request's finalizers resolve delivered.
    Deliver,
    /// The outcome is fatal, or the retry budget is spent: the finalizers
    /// resolve rejected and no further attempt is made.
    Reject,
    /// Retry after this many milliseconds.
    RetryAfter(u64),
}

/// Disposes of one attempt's outcome: success delivers; a fatal outcome
/// rejects; a retryable outcome retries within the budget, pausing for
/// the server-given time when one came with the response, else for the
/// jittered exponential backoff.
pub fn dispose_attempt(
    state: &mut RetryState,
    policy: &RetryPolicy,
    event: TransportEvent,
    retry_after_millis: Option<u64>,
) -> (r: AttemptDisposition)
    requires
        retry_wf(*old(state), *policy),
    ensures
        retry_wf(*final(state), *policy),
        ({
            let outcome = match event {
                TransportEvent::ConnectionError => RetryOutcome::RetryableFailure,
                TransportEvent::Timeout => RetryOutcome::RetryableFailure,
                TransportEvent::Status(st) => spec_classify_status(st),
            };
            match outcome {
                RetryOutcome::Success => r == AttemptDisposition::Deliver && *final(state) == *old(
                    state,
                ),
                RetryOutcome::FatalFailure => r == AttemptDisposition::Reject && *final(state)
                    == *old(state),
                RetryOutcome::RetryableFailure => exists|d: u64|
                    #![auto]
                    {
                        &&& (retry_after_millis matches Some(ra) ==> d == ra)
                        &&& (retry_after_millis is None ==> {
                            let base = spec_backoff_millis(old(state).attempts as int);
                            base - base / 4 <= d <= base + base / 4
                        })
                        &&& if spec_retry_step(*old(state), *policy, d).1 {
                            r == AttemptDisposition::RetryAfter(d) && *final(state)
                                == spec_retry_step(*old(state), *policy, d).0
                        } else {
                            r == AttemptDisposition::Reject && *final(state) == *old(state)
                        }
                    },
            }
        }),
{
    let outcome = classify_transport_event(event);
    match outcome {
        RetryOutcome::Success => AttemptDisposition::Deliver,
        RetryOutcome::FatalFailure => AttemptDisposition::Reject,
        RetryOutcome::RetryableFailure => {
            proof {
                lemma_backoff_bounds(old(state).attempts as int);
            }
            let delay = match retry_after_millis {
                Some(ra) => ra,
                None => {
                    let base = if state.attempts > 0xffff_ffff {
                        proof {
                            lemma_backoff_high_saturates(
                                0xffff_ffffu32 as int,
                                old(state).attempts as int,
                            );
                        }
                        backoff_millis(0xffff_ffff)
                    } else {
                        backoff_millis(state.attempts as u32)
                    };
                    backoff_with_jitter(base)
                },
            };
            if state.record_attempt(policy, delay) {
                AttemptDisposition::RetryAfter(delay)
            } else {
                AttemptDisposition::Reject
            }
        },
    }
}

/// The backoff stays between its one-second floor and its thirty-second
/// cap.
pub proof fn lemma_backoff_bounds(attempt: int)
    ensures
        1000 <= spec_backoff_millis(attempt) <= 30_000,
    decreases attempt,
{
    if attempt > 0 {
        lemma_backoff_bounds(attempt - 1);
    }
}

/// From the fifth attempt on the backoff sits at its cap, so clamping the
/// attempt number never changes it.
pub proof fn lemma_backoff_high_saturates(a: int, b: int)
    requires
        a >= 5,
        b >= 5,
    ensures
        spec_backoff_millis(a) == spec_backoff_millis(b),
    decreases a + b,
{
    lemma_backoff_bounds(a);
    lemma_backoff_bounds(b);
    if a > 5 {
        lemma_backoff_at_five(a);
    }
    if b > 5 {
        lemma_backoff_at_five(b);
    }
    lemma_backoff_at_five(5);
}

/// At five attempts and beyond the backoff is exactly the cap.
pub proof fn lemma_backoff_at_five(attempt: int)
    requires
        attempt >= 5,
    ensures
        spec_backoff_millis(attempt) == 30_000,
    decreases attempt,
{
    if attempt > 5 {
        lemma_backoff_at_five(attempt - 1);
    } else {
        assert(spec_backoff_millis(0) == 1000);
        assert(spec_backoff_millis(1) == 2000);
        assert(spec_backoff_millis(2) == 4000);
        assert(spec_backoff_millis(3) == 8000);
        assert(spec_backoff_millis(4) == 16_000);
        assert(spec_backoff_millis(5) == 30_000);
    }
}


/// The dispatch rate limiter: at most `limit` dispatches per window.
pub struct RateLimiter {
    pub limit: u64,
    pub window_millis: u64,
    pub window_start: u64,
    pub dispatched: u64,
}

/// The window bound every limiter state observes.
pub open spec fn rate_wf(r: RateLimiter) -> bool {
    r.dispatched <= r.limit
}

/// One dispatch request at the specification level: a full window rolls
/// over when it has elapsed; within a window at most `limit` dispatches
/// are granted.
pub open spec fn spec_rate_step(r: RateLimiter, now_ms: u64) -> (RateLimiter, bool) {
    if now_ms >= r.window_start && now_ms - r.window_start >= r.window_millis {
        if r.limit >= 1 {
            (RateLimiter { window_start: now_ms, dispatched: 1u64, ..r }, true)
        } else {
            (RateLimiter { window_start: now_ms, dispatched: 0u64, ..r }, false)
        }
    } else if r.dispatched < r.limit {
        (RateLimiter { dispatched: (r.dispatched + 1) as u64, ..r }, true)
    } else {
        (r, false)
    }
}

impl RateLimiter {
    pub fn new(limit: u64, window_millis: u64, now_ms: u64) -> (r: RateLimiter)
        ensures
            rate_wf(r),
            r.limit == limit,
            r.window_millis == window_millis,
            r.window_start == now_ms,
            r.dispatched == 0,
    {
        RateLimiter { limit, window_millis, window_start: now_ms, dispatched: 0 }
    }

    /// Asks to dispatch one request now; within a window at most `limit`
    /// requests pass.
    pub fn try_dispatch(&mut self, now_ms: u64) -> (granted: bool)
        requires
            rate_wf(*old(self)),
        ensures
            rate_wf(*final(self)),
            (*final(self), granted) == spec_rate_step(*old(self), now_ms),
    {
        if now_ms >= self.window_start && now_ms - self.window_start >= self.window_millis {
            self.window_start = now_ms;
            if self.limit >= 1 {
                self.dispatched = 1;
                true
            } else {
                self.dispatched = 0;
                false
            }
        } else if self.dispatched < self.limit {
            self.dispatched = self.dispatched + 1;
            true
        } else {
            false
        }
    }
}

/// In-flight request permits for the fixed concurrency strategy; the
/// adaptive controller is a pluggable strategy outside this core, and an
/// unlimited strategy never refuses.
pub struct ConcurrencyPermits {
    pub strategy: Concurrency,
    pub in_flight: usize,
}

/// The permit bound every state observes.
pub open spec fn permits_wf(p: ConcurrencyPermits) -> bool {
    match p.strategy {
        Concurrency::Fixed(n) => p.in_flight <= n,
        _ => true,
    }
}

impl ConcurrencyPermits {
    pub fn new(strategy: Concurrency) -> (r: ConcurrencyPermits)
        ensures
            permits_wf(r),
            r.strategy == strategy,
            r.in_flight == 0,
    {
        ConcurrencyPermits { strategy, in_flight: 0 }
    }

    /// Admits one more in-flight request while the strategy has room.
    pub fn try_acquire(&mut self) -> (granted: bool)
        requires
            permits_wf(*old(self)),
        ensures
            permits_wf(*final(self)),
            final(self).strategy == old(self).strategy,
            granted == match old(self).strategy {
                Concurrency::Fixed(n) => old(self).in_flight < n,
                _ => old(self).in_flight < usize::MAX,
            },
            granted ==> final(self).in_flight == old(self).in_flight + 1,
            !granted ==> final(self).in_flight == old(self).in_flight,
    {
        match self.strategy {
            Concurrency::Fixed(n) => {
                if self.in_flight < n {
                    self.in_flight = self.in_flight + 1;
                    true
                } else {
                    false
                }
            },
            _ => {
                if self.in_flight < usize::MAX {
                    self.in_flight = self.in_flight + 1;
                    true
                } else {
                    false
                }
            },
        }
    }

    /// Returns one permit when a request settles.
    pub fn release(&mut self)
        requires
            permits_wf(*old(self)),
            old(self).in_flight >= 1,
        ensures
            permits_wf(*final(self)),
            final(self).strategy == old(self).strategy,
            final(self).in_flight == old(self).in_flight - 1,
    {
        self.in_flight = self.in_flight - 1;
    }
}

} // verus!
