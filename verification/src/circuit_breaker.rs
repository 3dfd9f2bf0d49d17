//! Circuit breaker: a Closed -> Open -> HalfOpen state machine that guards
//! cleanup operations against cascading failures.

use std::time::Instant;
use vstd::prelude::*;

verus! {

/// Declares `std::time::Instant` so that a breaker can remember when it opened.
/// Verus sees nothing inside a value of it.
#[verifier::external_type_specification]
#[verifier::external_body]
pub struct ExInstant(Instant);

/// Reads the monotonic clock with `std::time::Instant::now`.
/// Nothing is promised of the value: it depends on when the call is made.
#[verifier::external_body]
fn instant_now() -> Instant {
    Instant::now()
}

/// Milliseconds since `since`, from `Instant::elapsed` converted with
/// `Duration::as_millis` (whole milliseconds, rounded down).
/// Nothing is promised of the value: it depends on when the call is made.
#[verifier::external_body]
fn millis_since(since: &Instant) -> u128 {
    since.elapsed().as_millis()
}

/// Circuit breaker state.
#[derive(Debug, Clone, Copy, PartialEq, Eq, Structural)]
pub enum CircuitState {
    Closed,
    Open,
    HalfOpen,
}

/// Configuration for a circuit breaker.
#[derive(Debug, Clone, Copy)]
pub struct CircuitBreakerConfig {
    /// Consecutive failures, while closed, that open the circuit.
    pub failure_threshold: usize,
    /// How long the circuit stays open before a trial request is let through.
    pub recovery_timeout_ms: u64,
    /// Successes, while half-open, that close the circuit again.
    pub success_threshold: usize,
}

impl Default for CircuitBreakerConfig {
    fn default() -> (config: Self)
        ensures
            config.failure_threshold == 5,
            config.recovery_timeout_ms == 30_000,
            config.success_threshold == 3,
    {
        CircuitBreakerConfig { failure_threshold: 5, recovery_timeout_ms: 30_000, success_threshold: 3 }
    }
}

/// The mathematical model of a breaker: its state, counters and whether it
/// remembers an opening time.
pub struct BreakerModel {
    pub config: CircuitBreakerConfig,
    pub state: CircuitState,
    pub failure_count: nat,
    pub success_count: nat,
    pub opened: bool,
    pub total_successes: nat,
    pub total_failures: nat,
    pub total_rejections: nat,
}

impl BreakerModel {
    /// A fresh, closed breaker.
    pub open spec fn initial(config: CircuitBreakerConfig) -> BreakerModel {
        BreakerModel {
            config,
            state: CircuitState::Closed,
            failure_count: 0,
            success_count: 0,
            opened: false,
            total_successes: 0,
            total_failures: 0,
            total_rejections: 0,
        }
    }

    /// Whether the recovery timeout has passed, `elapsed_ms` after the opening.
    pub open spec fn recovery_elapsed(self, elapsed_ms: int) -> bool {
        self.opened && elapsed_ms >= self.config.recovery_timeout_ms
    }

    /// The breaker after a request was asked for, `elapsed_ms` after it opened,
    /// and whether the request is allowed.
    pub open spec fn allow(self, elapsed_ms: int) -> (BreakerModel, bool) {
        match self.state {
            CircuitState::Closed => (self, true),
            CircuitState::HalfOpen => (self, true),
            CircuitState::Open => {
                if self.recovery_elapsed(elapsed_ms) {
                    (BreakerModel { state: CircuitState::HalfOpen, success_count: 0, ..self }, true)
                } else {
                    (BreakerModel { total_rejections: self.total_rejections + 1, ..self }, false)
                }
            },
        }
    }

    /// The breaker after a successful operation.
    pub open spec fn on_success(self) -> BreakerModel {
        let counted = BreakerModel { total_successes: self.total_successes + 1, ..self };
        match self.state {
            CircuitState::Closed => BreakerModel { failure_count: 0, ..counted },
            CircuitState::HalfOpen => {
                if self.success_count + 1 >= self.config.success_threshold {
                    BreakerModel {
                        state: CircuitState::Closed,
                        failure_count: 0,
                        success_count: 0,
                        ..counted
                    }
                } else {
                    BreakerModel { success_count: self.success_count + 1, ..counted }
                }
            },
            CircuitState::Open => counted,
        }
    }

    /// The breaker after a failed operation.
    pub open spec fn on_failure(self) -> BreakerModel {
        let counted = BreakerModel { total_failures: self.total_failures + 1, ..self };
        match self.state {
            CircuitState::Closed => {
                if self.failure_count + 1 >= self.config.failure_threshold {
                    BreakerModel {
                        state: CircuitState::Open,
                        failure_count: self.failure_count + 1,
                        opened: true,
                        ..counted
                    }
                } else {
                    BreakerModel { failure_count: self.failure_count + 1, ..counted }
                }
            },
            CircuitState::HalfOpen => BreakerModel {
                state: CircuitState::Open,
                opened: true,
                success_count: 0,
                ..counted
            },
            CircuitState::Open => counted,
        }
    }

    /// The breaker after it was forced open.
    pub open spec fn tripped(self) -> BreakerModel {
        BreakerModel { state: CircuitState::Open, opened: true, ..self }
    }

    /// The breaker after it was forced closed.
    pub open spec fn reset(self) -> BreakerModel {
        BreakerModel {
            state: CircuitState::Closed,
            failure_count: 0,
            success_count: 0,
            opened: false,
            ..self
        }
    }

    /// The counters can take one more step without leaving their machine types.
    pub open spec fn can_count_success(self) -> bool {
        &&& self.total_successes < u64::MAX
        &&& self.state is HalfOpen ==> self.success_count < usize::MAX
    }

    pub open spec fn can_count_failure(self) -> bool {
        &&& self.total_failures < u64::MAX
        &&& self.state is Closed ==> self.failure_count < usize::MAX
    }

    pub open spec fn can_count_rejection(self) -> bool {
        self.state is Open ==> self.total_rejections < u64::MAX
    }

    /// The consecutive-event counters stay within the thresholds that reset them.
    pub open spec fn counters_bounded(self) -> bool {
        &&& self.state is Closed ==> (self.failure_count == 0 || self.failure_count
            < self.config.failure_threshold)
        &&& self.state is HalfOpen ==> (self.success_count == 0 || self.success_count
            < self.config.success_threshold)
    }
}

/// A circuit breaker. Its state and counters are read through methods whose
/// contracts speak of its model (`self@`).
pub struct CircuitBreaker {
    config: CircuitBreakerConfig,
    state: CircuitState,
    failure_count: usize,
    success_count: usize,
    opened_at: Option<Instant>,
    total_successes: u64,
    total_failures: u64,
    total_rejections: u64,
}

impl View for CircuitBreaker {
    type V = BreakerModel;

    closed spec fn view(&self) -> BreakerModel {
        BreakerModel {
            config: self.config,
            state: self.state,
            failure_count: self.failure_count as nat,
            success_count: self.success_count as nat,
            opened: self.opened_at is Some,
            total_successes: self.total_successes as nat,
            total_failures: self.total_failures as nat,
            total_rejections: self.total_rejections as nat,
        }
    }
}

impl CircuitBreaker {
    /// The instant the breaker last opened at, if it remembers one. Only the
    /// operations that open the circuit set it, and only a reset clears it.
    pub closed spec fn opening(&self) -> Option<Instant> {
        self.opened_at
    }

    /// The model remembers an opening exactly when the breaker holds an
    /// opening instant.
    pub proof fn lemma_opening_is_modelled(&self)
        ensures
            self@.opened == self.opening() is Some,
    {
    }

    pub fn new(config: CircuitBreakerConfig) -> (cb: Self)
        ensures
            cb@ == BreakerModel::initial(config),
            cb.opening() is None,
    {
        CircuitBreaker {
            config,
            state: CircuitState::Closed,
            failure_count: 0,
            success_count: 0,
            opened_at: None,
            total_successes: 0,
            total_failures: 0,
            total_rejections: 0,
        }
    }

    pub fn default_breaker() -> (cb: Self)
        ensures
            cb@ == BreakerModel::initial(
                CircuitBreakerConfig {
                    failure_threshold: 5,
                    recovery_timeout_ms: 30_000,
                    success_threshold: 3,
                },
            ),
    {
        Self::new(CircuitBreakerConfig::default())
    }

    /// Decides on a request when `elapsed_ms` milliseconds have passed since
    /// the breaker opened: closed and half-open breakers allow it; an open one
    /// moves to half-open and allows it once the recovery timeout has passed,
    /// and rejects it (counting the rejection) before that.
    pub fn allow_request_after(&mut self, elapsed_ms: u128) -> (allowed: bool)
        requires
            old(self)@.state is Open && !old(self)@.recovery_elapsed(elapsed_ms as int)
                ==> old(self)@.total_rejections < u64::MAX,
        ensures
            (final(self)@, allowed) == old(self)@.allow(elapsed_ms as int),
            final(self).opening() == old(self).opening(),
    {
        match self.state {
            CircuitState::Closed => true,
            CircuitState::Open => {
                if self.opened_at.is_some() && elapsed_ms >= self.config.recovery_timeout_ms as u128 {
                    self.state = CircuitState::HalfOpen;
                    self.success_count = 0;
                    return true;
                }
                self.total_rejections = self.total_rejections + 1;
                false
            },
            CircuitState::HalfOpen => true,
        }
    }

    /// Decides on a request, reading the clock when the breaker is open: the
    /// decision is the one `allow_request_after` makes on the milliseconds
    /// the clock reports since the opening instant, which is kept. Which
    /// value the clock reports is not stated (it depends on when the call is
    /// made), so the contract holds for some elapsed time of at least zero.
    pub fn allow_request(&mut self) -> (allowed: bool)
        requires
            old(self)@.can_count_rejection(),
        ensures
            exists|elapsed_ms: int|
                elapsed_ms >= 0 && (final(self)@, allowed) == #[trigger] old(self)@.allow(elapsed_ms),
            final(self).opening() == old(self).opening(),
    {
        let elapsed_ms: u128 = match (&self.state, &self.opened_at) {
            (CircuitState::Open, Some(opened)) => millis_since(opened),
            _ => 0,
        };
        self.allow_request_after(elapsed_ms)
    }

    pub fn record_success(&mut self)
        requires
            old(self)@.can_count_success(),
        ensures
            final(self)@ == old(self)@.on_success(),
            final(self).opening() == old(self).opening(),
    {
        self.total_successes = self.total_successes + 1;
        match self.state {
            CircuitState::Closed => {
                self.failure_count = 0;
            },
            CircuitState::HalfOpen => {
                self.success_count = self.success_count + 1;
                if self.success_count >= self.config.success_threshold {
                    self.state = CircuitState::Closed;
                    self.failure_count = 0;
                    self.success_count = 0;
                }
            },
            CircuitState::Open => {},
        }
    }

    /// Records a failed operation. When it opens the circuit (the failure
    /// that reaches the threshold while closed, or any failure while
    /// half-open) the breaker takes the clock's current instant as its
    /// opening instant, so the recovery wait starts again; otherwise the
    /// opening instant is kept. Which instant the clock gives is not stated.
    pub fn record_failure(&mut self)
        requires
            old(self)@.can_count_failure(),
        ensures
            final(self)@ == old(self)@.on_failure(),
            !(final(self)@.state is Open && !(old(self)@.state is Open)) ==> final(self).opening()
                == old(self).opening(),
    {
        self.total_failures = self.total_failures + 1;
        match self.state {
            CircuitState::Closed => {
                self.failure_count = self.failure_count + 1;
                if self.failure_count >= self.config.failure_threshold {
                    self.state = CircuitState::Open;
                    self.opened_at = Some(instant_now());
                }
            },
            CircuitState::HalfOpen => {
                self.state = CircuitState::Open;
                self.opened_at = Some(instant_now());
                self.success_count = 0;
            },
            CircuitState::Open => {},
        }
    }

    /// Forces the circuit open.
    pub fn trip(&mut self)
        ensures
            final(self)@ == old(self)@.tripped(),
    {
        self.state = CircuitState::Open;
        self.opened_at = Some(instant_now());
    }

    /// Forces the circuit closed and clears its consecutive-event counters.
    pub fn reset(&mut self)
        ensures
            final(self)@ == old(self)@.reset(),
            final(self).opening() is None,
    {
        self.state = CircuitState::Closed;
        self.failure_count = 0;
        self.success_count = 0;
        self.opened_at = None;
    }

    /// Total successes, failures and rejections seen so far.
    pub fn stats(&self) -> (r: (u64, u64, u64))
        ensures
            r.0 == self@.total_successes,
            r.1 == self@.total_failures,
            r.2 == self@.total_rejections,
    {
        (self.total_successes, self.total_failures, self.total_rejections)
    }

    pub fn failure_count(&self) -> (r: usize)
        ensures
            r == self@.failure_count,
    {
        self.failure_count
    }

    pub fn success_count(&self) -> (r: usize)
        ensures
            r == self@.success_count,
    {
        self.success_count
    }

    /// The breaker's configuration.
    pub fn config(&self) -> (r: CircuitBreakerConfig)
        ensures
            r == self@.config,
    {
        self.config
    }

    /// The breaker's state.
    pub fn state(&self) -> (r: CircuitState)
        ensures
            r == self@.state,
    {
        self.state
    }

    pub fn is_open(&self) -> (r: bool)
        ensures
            r == (self@.state is Open),
    {
        self.state == CircuitState::Open
    }

    pub fn is_closed(&self) -> (r: bool)
        ensures
            r == (self@.state is Closed),
    {
        self.state == CircuitState::Closed
    }
}

/// The breaker after `k` consecutive failed operations.
pub open spec fn after_failures(m: BreakerModel, k: nat) -> BreakerModel
    decreases k,
{
    if k == 0 {
        m
    } else {
        after_failures(m, (k - 1) as nat).on_failure()
    }
}

/// The breaker after `k` consecutive successful operations.
pub open spec fn after_successes(m: BreakerModel, k: nat) -> BreakerModel
    decreases k,
{
    if k == 0 {
        m
    } else {
        after_successes(m, (k - 1) as nat).on_success()
    }
}

/// A fresh breaker keeps its counters within their thresholds, and every
/// operation keeps them there; within those bounds the consecutive counters
/// can always take one more step.
pub proof fn lemma_counters_stay_bounded(m: BreakerModel, elapsed_ms: int)
    requires
        m.counters_bounded(),
    ensures
        BreakerModel::initial(m.config).counters_bounded(),
        m.on_success().counters_bounded(),
        m.on_failure().counters_bounded(),
        m.allow(elapsed_ms).0.counters_bounded(),
        m.tripped().counters_bounded(),
        m.reset().counters_bounded(),
        m.state is Closed ==> m.failure_count < usize::MAX,
        m.state is HalfOpen ==> m.success_count < usize::MAX,
{
}

/// Failures below the threshold keep a closed breaker closed and are
/// counted; the failure that reaches the threshold opens it.
pub proof fn lemma_failures_open_at_threshold(m: BreakerModel, k: nat)
    requires
        m.state is Closed,
        m.failure_count == 0,
        k <= m.config.failure_threshold,
    ensures
        k < m.config.failure_threshold ==> {
            &&& after_failures(m, k).state is Closed
            &&& after_failures(m, k).failure_count == k
        },
        k == m.config.failure_threshold && k > 0 ==> after_failures(m, k).state is Open,
        after_failures(m, k).config == m.config,
        after_failures(m, k).total_failures == m.total_failures + k,
        after_failures(m, k).total_successes == m.total_successes,
        after_failures(m, k).total_rejections == m.total_rejections,
    decreases k,
{
    if k > 0 {
        lemma_failures_open_at_threshold(m, (k - 1) as nat);
    }
}

/// Successes below the success threshold keep a half-open breaker half-open
/// and are counted; the success that reaches the threshold closes it with
/// both consecutive counters cleared.
pub proof fn lemma_successes_close_at_threshold(m: BreakerModel, k: nat)
    requires
        m.state is HalfOpen,
        m.success_count == 0,
        k <= m.config.success_threshold,
    ensures
        k < m.config.success_threshold ==> {
            &&& after_successes(m, k).state is HalfOpen
            &&& after_successes(m, k).success_count == k
        },
        k == m.config.success_threshold && k > 0 ==> {
            &&& after_successes(m, k).state is Closed
            &&& after_successes(m, k).failure_count == 0
            &&& after_successes(m, k).success_count == 0
        },
        after_successes(m, k).config == m.config,
        after_successes(m, k).total_successes == m.total_successes + k,
        after_successes(m, k).total_failures == m.total_failures,
    decreases k,
{
    if k > 0 {
        lemma_successes_close_at_threshold(m, (k - 1) as nat);
    }
}

/// A failure while half-open opens the circuit again.
pub proof fn lemma_half_open_failure_reopens(m: BreakerModel)
    requires
        m.state is HalfOpen,
    ensures
        m.on_failure().state is Open,
        m.on_failure().opened,
        m.on_failure().success_count == 0,
{
}

/// Closed and half-open breakers let every request through and do not change;
/// an open breaker whose recovery timeout has not passed rejects the request,
/// counts one rejection and changes nothing else; once the timeout has
/// passed it lets one request through as half-open.
pub proof fn lemma_request_decisions(m: BreakerModel, elapsed_ms: int)
    ensures
        !(m.state is Open) ==> m.allow(elapsed_ms) == (m, true),
        m.state is Open && !m.recovery_elapsed(elapsed_ms) ==> {
            &&& !m.allow(elapsed_ms).1
            &&& m.allow(elapsed_ms).0 == BreakerModel { total_rejections: m.total_rejections + 1, ..m }
        },
        m.state is Open && m.recovery_elapsed(elapsed_ms) ==> {
            &&& m.allow(elapsed_ms).1
            &&& m.allow(elapsed_ms).0.state is HalfOpen
            &&& m.allow(elapsed_ms).0.success_count == 0
        },
{
}

/// A success while closed clears the failure count; tripping always opens
/// and resetting always closes with cleared counters, whatever the state.
pub proof fn lemma_success_trip_reset(m: BreakerModel)
    ensures
        m.state is Closed ==> m.on_success().failure_count == 0 && m.on_success().state is Closed,
        m.tripped().state is Open,
        m.reset().state is Closed,
        m.reset().failure_count == 0,
        m.reset().success_count == 0,
{
}

/// A failure that opens the circuit starts the recovery wait: a request
/// made less than the recovery timeout after it is rejected, one made once
/// the timeout has passed is let through on trial, and a request let
/// through at some time would be let through at any later time.
pub proof fn lemma_opening_failure_starts_recovery_wait(m: BreakerModel, e1: int, e2: int)
    requires
        !(m.state is Open),
        m.on_failure().state is Open,
        e1 <= e2,
    ensures
        m.on_failure().allow(e1).1 <==> e1 >= m.config.recovery_timeout_ms,
        m.on_failure().allow(e1).1 ==> m.on_failure().allow(e2).1,
{
}

/// Every operation counts in exactly one of the totals, and only requests
/// refused by an open breaker count as rejections.
pub proof fn lemma_totals_count_each_event(m: BreakerModel, elapsed_ms: int)
    ensures
        m.on_success().total_successes == m.total_successes + 1,
        m.on_success().total_failures == m.total_failures,
        m.on_success().total_rejections == m.total_rejections,
        m.on_failure().total_failures == m.total_failures + 1,
        m.on_failure().total_successes == m.total_successes,
        m.on_failure().total_rejections == m.total_rejections,
        m.allow(elapsed_ms).0.total_successes == m.total_successes,
        m.allow(elapsed_ms).0.total_failures == m.total_failures,
        m.allow(elapsed_ms).0.total_rejections == m.total_rejections + (if m.allow(elapsed_ms).1 {
            0int
        } else {
            1int
        }),
{
}

} // verus!
