//! Talking to the village lookup service: the circuit breaker that guards
//! it and the decisions of the retrying request loop.
use vstd::prelude::*;
use crate::text::{decimal, owned, push_str, push_u64};
use crate::graphs::two_to;
use crate::weather_core::error::CuacaError;

verus! {

broadcast use vstd::string::group_string_axioms;

/// Consecutive failures that open the breaker.
pub const BREAKER_THRESHOLD: u8 = 5;

/// Seconds an open breaker waits before letting a trial request through.
pub const BREAKER_COOLDOWN_SECS: u64 = 300;

/// Retries of a failing request.
pub const MAX_RETRIES: u8 = 3;

/// State of the circuit breaker.
#[derive(Debug, Clone, Copy, PartialEq, Eq, Structural)]
pub enum BreakerState {
    /// Requests pass.
    Closed,
    /// Requests are refused until the cooldown has passed.
    Open,
    /// One trial request passes; its outcome closes or reopens the breaker.
    HalfOpen,
}

/// A circuit breaker: after repeated failures it stops requests for a while.
#[derive(Debug, Clone, Copy, PartialEq, Eq, Structural)]
pub struct CircuitBreaker {
    pub state: BreakerState,
    /// Failures since the last success.
    pub failures: u8,
    /// When the breaker last opened, in seconds since the Unix epoch.
    pub last_trip: u64,
}

/// The breaker after a request was let through or refused at `now`, and
/// whether it was let through: a closed or half-open breaker lets it
/// through; an open one refuses it until the cooldown has passed since it
/// opened, then turns half-open and lets it through.
pub open spec fn let_through(b: CircuitBreaker, now: u64) -> (CircuitBreaker, bool) {
    match b.state {
        BreakerState::Closed => (b, true),
        BreakerState::HalfOpen => (b, true),
        BreakerState::Open => if now - b.last_trip >= BREAKER_COOLDOWN_SECS {
            (CircuitBreaker { state: BreakerState::HalfOpen, ..b }, true)
        } else {
            (b, false)
        },
    }
}

/// The breaker after a success: closed, with no failures counted.
pub open spec fn after_success(b: CircuitBreaker) -> CircuitBreaker {
    CircuitBreaker { state: BreakerState::Closed, failures: 0, ..b }
}

/// The failure count after one more failure; the count stays at its
/// largest value once there.
pub open spec fn one_more_failure(failures: u8) -> u8 {
    if failures < u8::MAX {
        (failures + 1) as u8
    } else {
        u8::MAX
    }
}

/// The breaker after a failure at `now`: one more failure counted; a
/// half-open breaker reopens, and any breaker opens once the failures reach
/// the threshold.
pub open spec fn after_failure(b: CircuitBreaker, now: u64) -> CircuitBreaker {
    let failures = one_more_failure(b.failures);
    if b.state == BreakerState::HalfOpen || failures >= BREAKER_THRESHOLD {
        CircuitBreaker { state: BreakerState::Open, failures, last_trip: now }
    } else {
        CircuitBreaker { failures, ..b }
    }
}

impl CircuitBreaker {
    /// A closed breaker with no failures.
    pub fn new() -> (b: Self)
        ensures
            b == (CircuitBreaker { state: BreakerState::Closed, failures: 0, last_trip: 0 }),
    {
        CircuitBreaker { state: BreakerState::Closed, failures: 0, last_trip: 0 }
    }

    /// Asks to send a request at `now`; refused with a message while the
    /// breaker is open.
    pub fn before_request(&mut self, now: u64) -> (r: Result<(), &'static str>)
        requires
            old(self).state == BreakerState::Open ==> now >= old(self).last_trip,
        ensures
            *final(self) == let_through(*old(self), now).0,
            r is Ok == let_through(*old(self), now).1,
            r matches Err(m) ==> m@ == "API temporarily unavailable"@,
    {
        match self.state {
            BreakerState::Closed => Ok(()),
            BreakerState::HalfOpen => Ok(()),
            BreakerState::Open => {
                if now - self.last_trip >= BREAKER_COOLDOWN_SECS {
                    self.state = BreakerState::HalfOpen;
                    Ok(())
                } else {
                    Err("API temporarily unavailable")
                }
            },
        }
    }

    /// Records a successful request.
    pub fn record_success(&mut self)
        ensures
            *final(self) == after_success(*old(self)),
    {
        self.state = BreakerState::Closed;
        self.failures = 0;
    }

    /// Records a failed request at `now`.
    pub fn record_failure(&mut self, now: u64)
        ensures
            *final(self) == after_failure(*old(self), now),
    {
        if self.failures < u8::MAX {
            self.failures = self.failures + 1;
        }
        if self.state == BreakerState::HalfOpen {
            self.last_trip = now;
            self.state = BreakerState::Open;
            return;
        }
        if self.failures >= BREAKER_THRESHOLD {
            self.last_trip = now;
            self.state = BreakerState::Open;
        }
    }
}

/// Puts a breaker back into its initial state.
pub fn reset_breaker(breaker: &mut CircuitBreaker)
    ensures
        *final(breaker) == (CircuitBreaker { state: BreakerState::Closed, failures: 0, last_trip: 0 }),
{
    breaker.state = BreakerState::Closed;
    breaker.failures = 0;
    breaker.last_trip = 0;
}

/// A closed breaker lets every request through and stays as it is.
pub proof fn law_closed_breaker_lets_requests_through(b: CircuitBreaker, now: u64)
    requires
        b.state == BreakerState::Closed,
    ensures
        let_through(b, now) == (b, true),
{
}

/// The threshold number of failures in a row opens a fresh breaker, at the
/// time of the last failure.
pub proof fn law_threshold_failures_open(t1: u64, t2: u64, t3: u64, t4: u64, t5: u64)
    ensures
        ({
            let b0 = CircuitBreaker { state: BreakerState::Closed, failures: 0, last_trip: 0 };
            let b = after_failure(
                after_failure(after_failure(after_failure(after_failure(b0, t1), t2), t3), t4),
                t5,
            );
            b.state == BreakerState::Open && b.last_trip == t5
        }),
        ({
            let b0 = CircuitBreaker { state: BreakerState::Closed, failures: 0, last_trip: 0 };
            after_failure(after_failure(after_failure(after_failure(b0, t1), t2), t3), t4).state
                == BreakerState::Closed
        }),
{
}

/// A closed breaker opens, at the time of the failure, on the failure that
/// brings its count to the threshold, and stays closed, counting, before.
pub proof fn law_closed_breaker_opens_at_threshold(b: CircuitBreaker, now: u64)
    requires
        b.state == BreakerState::Closed,
    ensures
        b.failures + 1 >= BREAKER_THRESHOLD ==> after_failure(b, now).state == BreakerState::Open
            && after_failure(b, now).last_trip == now,
        b.failures + 1 < BREAKER_THRESHOLD ==> after_failure(b, now).state == BreakerState::Closed
            && after_failure(b, now).failures == b.failures + 1,
{
}

/// An open breaker refuses requests, unchanged, until the cooldown has passed.
pub proof fn law_open_breaker_refuses_during_cooldown(b: CircuitBreaker, now: u64)
    requires
        b.state == BreakerState::Open,
        b.last_trip <= now < b.last_trip + BREAKER_COOLDOWN_SECS,
    ensures
        let_through(b, now) == (b, false),
{
}

/// After the cooldown an open breaker lets one trial request through and
/// turns half-open.
pub proof fn law_open_breaker_half_opens_after_cooldown(b: CircuitBreaker, now: u64)
    requires
        b.state == BreakerState::Open,
        b.last_trip + BREAKER_COOLDOWN_SECS <= now,
    ensures
        let_through(b, now).1,
        let_through(b, now).0.state == BreakerState::HalfOpen,
{
}

/// A success always closes the breaker and clears the failure count.
pub proof fn law_success_closes(b: CircuitBreaker)
    ensures
        after_success(b).state == BreakerState::Closed,
        after_success(b).failures == 0,
{
}

/// A failure of the trial request reopens the breaker at that time.
pub proof fn law_half_open_failure_reopens(b: CircuitBreaker, now: u64)
    requires
        b.state == BreakerState::HalfOpen,
    ensures
        after_failure(b, now).state == BreakerState::Open,
        after_failure(b, now).last_trip == now,
{
}

/// Whether a breaker is as its operations leave it: an open or half-open
/// breaker has counted at least the threshold number of failures.
pub open spec fn breaker_consistent(b: CircuitBreaker) -> bool {
    b.state != BreakerState::Closed ==> b.failures >= BREAKER_THRESHOLD
}

/// Every operation keeps a breaker consistent, starting from a new one:
/// only failures open it, and only once they reach the threshold.
pub proof fn law_breaker_operations_keep_consistency(b: CircuitBreaker, now: u64)
    requires
        breaker_consistent(b),
    ensures
        breaker_consistent(CircuitBreaker { state: BreakerState::Closed, failures: 0, last_trip: 0 }),
        breaker_consistent(after_failure(b, now)),
        breaker_consistent(after_success(b)),
        breaker_consistent(let_through(b, now).0),
{
}

/// A consistent breaker that is open or half-open opens again, at the time
/// of the failure, on its next failure.
pub proof fn law_tripped_breaker_retrips_on_failure(b: CircuitBreaker, now: u64)
    requires
        breaker_consistent(b),
        b.state != BreakerState::Closed,
    ensures
        after_failure(b, now).state == BreakerState::Open,
        after_failure(b, now).last_trip == now,
{
}

/// The breaker after failures at the times `times`, in order.
pub open spec fn after_failures(b: CircuitBreaker, times: Seq<u64>) -> CircuitBreaker
    decreases times.len(),
{
    if times.len() == 0 {
        b
    } else {
        after_failure(after_failures(b, times.drop_last()), times.last())
    }
}

/// Failures in a row after a success (or on a new breaker): the breaker
/// counts them (up to the largest count), stays closed before the
/// threshold, and is open from the failure that reaches it on, tripped at
/// the time of the latest failure.
pub proof fn law_failures_in_a_row(b: CircuitBreaker, times: Seq<u64>)
    requires
        b.state == BreakerState::Closed,
        b.failures == 0,
    ensures
        after_failures(b, times).failures == if times.len() < 255 {
            times.len()
        } else {
            255
        },
        times.len() < BREAKER_THRESHOLD ==> after_failures(b, times).state == BreakerState::Closed,
        times.len() >= BREAKER_THRESHOLD ==> after_failures(b, times).state == BreakerState::Open
            && after_failures(b, times).last_trip == times.last(),
    decreases times.len(),
{
    if times.len() > 0 {
        law_failures_in_a_row(b, times.drop_last());
    }
}

// ---------------------------------------------------------------------------
// The request loop

/// What one attempt of a request gave.
#[derive(Debug, Clone, PartialEq, Eq)]
pub enum FetchOutcome {
    /// A successful status whose body parsed as JSON.
    Parsed,
    /// A successful status whose body did not parse; the parser's message.
    BadBody(String),
    /// An unsuccessful status: its code and its text (e.g. `503 Service Unavailable`).
    Status(u16, String),
    /// No response; the client's message.
    Network(String),
}

/// What the request loop does next.
#[derive(Debug, Clone, PartialEq, Eq)]
pub enum FetchAction {
    /// Return the parsed body.
    Done,
    /// Wait this many milliseconds, then try again.
    RetryAfter(u64),
    /// Give up with this error.
    Fail(CuacaError),
}

/// Whether a status is worth retrying: too many requests, or a server error.
pub open spec fn retryable_status(code: u16) -> bool {
    code == 429 || (500 <= code && code <= 599)
}

/// The wait before retry number `attempts + 1`, in milliseconds: one second,
/// doubling with every attempt.
pub open spec fn backoff_ms(attempts: nat) -> nat
    decreases attempts,
{
    if attempts == 0 {
        1000
    } else {
        2 * backoff_ms((attempts - 1) as nat)
    }
}

/// The wait before a retry doubles from one second: `1000 * 2^attempts`
/// milliseconds.
pub proof fn law_backoff_doubles_from_one_second(attempts: nat)
    ensures
        backoff_ms(attempts) == 1000 * two_to(attempts),
    decreases attempts,
{
    if attempts > 0 {
        law_backoff_doubles_from_one_second((attempts - 1) as nat);
    }
}

/// Which statuses are retried: too many requests (429) and every server
/// error (500 to 599); no other status is.
pub proof fn law_retried_statuses(code: u16)
    ensures
        code == 429 ==> retryable_status(code),
        500 <= code <= 599 ==> retryable_status(code),
        code != 429 && (code < 500 || code > 599) ==> !retryable_status(code),
{
}

/// The error message after the retries ran out.
pub open spec fn retries_exhausted_message(prefix: Seq<char>, detail: Seq<char>) -> Seq<char> {
    prefix + " after "@ + decimal(MAX_RETRIES as nat) + " retries: "@ + detail
}

fn retries_exhausted(prefix: &str, detail: &str) -> (m: String)
    ensures
        m@ == retries_exhausted_message(prefix@, detail@),
{
    let mut m = owned(prefix);
    push_str(&mut m, " after ");
    push_u64(&mut m, MAX_RETRIES as u64);
    push_str(&mut m, " retries: ");
    push_str(&mut m, detail);
    m
}

fn backoff(attempts: u8) -> (ms: u64)
    requires
        attempts < MAX_RETRIES,
    ensures
        ms == backoff_ms(attempts as nat),
{
    proof {
        reveal_with_fuel(backoff_ms, 3);
    }
    if attempts == 0 {
        1000
    } else if attempts == 1 {
        2000
    } else {
        4000
    }
}

/// One step of the request loop after attempt number `attempts` (counting
/// from 0) gave `outcome` at time `now`: the breaker records a success or a
/// failure, and the loop returns, retries after a back-off, or fails. A bad
/// body and a status that is not worth retrying fail at once and leave the
/// breaker as it is.
pub fn fetch_step(breaker: &mut CircuitBreaker, attempts: u8, outcome: &FetchOutcome, now: u64) -> (action:
    FetchAction)
    requires
        attempts <= MAX_RETRIES,
    ensures
        match *outcome {
            FetchOutcome::Parsed => action == FetchAction::Done && *final(breaker) == after_success(
                *old(breaker),
            ),
            FetchOutcome::BadBody(e) => *final(breaker) == *old(breaker) && (action matches FetchAction::Fail(
                CuacaError::Location(m),
            ) && m@ == "JSON parse error: "@ + e@),
            FetchOutcome::Status(code, text) => if retryable_status(code) {
                &&& *final(breaker) == after_failure(*old(breaker), now)
                &&& if attempts < MAX_RETRIES {
                    action == FetchAction::RetryAfter(backoff_ms(attempts as nat) as u64)
                } else {
                    (action matches FetchAction::Fail(CuacaError::Location(m)) && m@
                        == retries_exhausted_message("API error"@, text@))
                }
            } else {
                *final(breaker) == *old(breaker) && (action matches FetchAction::Fail(
                    CuacaError::Location(m),
                ) && m@ == "API returned error: "@ + text@)
            },
            FetchOutcome::Network(e) => {
                &&& *final(breaker) == after_failure(*old(breaker), now)
                &&& if attempts < MAX_RETRIES {
                    action == FetchAction::RetryAfter(backoff_ms(attempts as nat) as u64)
                } else {
                    (action matches FetchAction::Fail(CuacaError::Location(m)) && m@
                        == retries_exhausted_message("network error"@, e@))
                }
            },
        },
        match *outcome {
            FetchOutcome::Status(code, _) => (code == 429 || (500 <= code && code <= 599)) && attempts
                < MAX_RETRIES ==> action == FetchAction::RetryAfter((1000 * two_to(attempts as nat)) as u64)
                && *final(breaker) == after_failure(*old(breaker), now),
            _ => true,
        },
{
    proof {
        law_backoff_doubles_from_one_second(attempts as nat);
    }
    match outcome {
        FetchOutcome::Parsed => {
            breaker.record_success();
            FetchAction::Done
        },
        FetchOutcome::BadBody(e) => {
            let mut m = owned("JSON parse error: ");
            push_str(&mut m, e.as_str());
            FetchAction::Fail(CuacaError::Location(m))
        },
        FetchOutcome::Status(code, text) => {
            if *code == 429 || (500 <= *code && *code <= 599) {
                breaker.record_failure(now);
                if attempts < MAX_RETRIES {
                    FetchAction::RetryAfter(backoff(attempts))
                } else {
                    FetchAction::Fail(CuacaError::Location(retries_exhausted("API error", text.as_str())))
                }
            } else {
                let mut m = owned("API returned error: ");
                push_str(&mut m, text.as_str());
                FetchAction::Fail(CuacaError::Location(m))
            }
        },
        FetchOutcome::Network(e) => {
            breaker.record_failure(now);
            if attempts < MAX_RETRIES {
                FetchAction::RetryAfter(backoff(attempts))
            } else {
                FetchAction::Fail(CuacaError::Location(retries_exhausted("network error", e.as_str())))
            }
        },
    }
}

/// Asks the breaker before the first attempt: refused while it is open.
pub fn start_fetch(breaker: &mut CircuitBreaker, now: u64) -> (r: Result<(), CuacaError>)
    requires
        old(breaker).state == BreakerState::Open ==> now >= old(breaker).last_trip,
    ensures
        *final(breaker) == let_through(*old(breaker), now).0,
        r is Ok == let_through(*old(breaker), now).1,
        r matches Err(e) ==> (e matches CuacaError::Location(m) && m@ == "API temporarily unavailable"@),
{
    match breaker.before_request(now) {
        Ok(()) => Ok(()),
        Err(msg) => Err(CuacaError::Location(owned(msg))),
    }
}

// ---------------------------------------------------------------------------
// Search

/// The search request for a village name (the name is sent as it is).
pub open spec fn search_url_spec(base: Seq<char>, name: Seq<char>) -> Seq<char> {
    base + "/search?q="@ + name + "&limit=10"@
}

/// The search request for a village name.
pub fn search_url(base: &str, name: &str) -> (url: String)
    ensures
        url@ == search_url_spec(base@, name@),
{
    let mut url = owned(base);
    push_str(&mut url, "/search?q=");
    push_str(&mut url, name);
    push_str(&mut url, "&limit=10");
    url
}

/// The adm4 code of a search, from the code of the first result if it has one.
pub fn search_result(name: &str, first_code: Option<&str>) -> (r: Result<String, CuacaError>)
    ensures
        match first_code {
            Some(c) => (r matches Ok(code) && code@ == c@),
            None => (r matches Err(CuacaError::Location(m)) && m@ == "no village found matching '"@
                + name@ + "'"@),
        },
{
    match first_code {
        Some(c) => Ok(owned(c)),
        None => {
            let mut m = owned("no village found matching '");
            push_str(&mut m, name);
            push_str(&mut m, "'");
            Err(CuacaError::Location(m))
        },
    }
}

/// The adm4 code of a lookup by coordinates, from the code of the first
/// result if it has one.
pub fn nearest_result(first_code: Option<&str>) -> (r: Result<String, CuacaError>)
    ensures
        match first_code {
            Some(c) => (r matches Ok(code) && code@ == c@),
            None => (r matches Err(CuacaError::Location(m)) && m@ == "no village found for coordinates"@),
        },
{
    match first_code {
        Some(c) => Ok(owned(c)),
        None => Err(CuacaError::Location(owned("no village found for coordinates"))),
    }
}

} // verus!
