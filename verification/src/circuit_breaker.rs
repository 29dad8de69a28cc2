//! A circuit breaker per upstream provider: it fails fast after repeated
//! failures, lets a trial request through once a timeout has passed, and closes
//! again after enough successes.

use std::time::{Duration, Instant};
use vstd::prelude::*;
use crate::table::Table;
use crate::clock::{duration_as_nanos, duration_from_secs, duration_of_secs, instant_elapsed, instant_now};

verus! {

/// The three states of a breaker.
#[derive(Debug, Clone, Copy, PartialEq, Eq, Structural)]
pub enum CircuitState {
    /// Requests flow; failures are counted.
    Closed,
    /// Requests are refused until the timeout has passed.
    Open,
    /// Trial requests flow; successes are counted, one failure reopens.
    HalfOpen,
}

/// Thresholds and timeout of a breaker.
#[derive(Debug, Clone, Copy)]
pub struct CircuitBreakerConfig {
    pub failure_threshold: u32,
    pub success_threshold: u32,
    pub timeout: Duration,
}

/// Whether the time `since` has reached `timeout`, compared in nanoseconds:
/// for whole seconds, exactly whether the seconds of `since` reach those of
/// `timeout`; every duration reaches a timeout of zero.
pub fn timeout_reached(since: &Duration, timeout: &Duration) -> (b: bool)
    ensures
        forall|s: u64, t: u64|
            #![trigger duration_of_secs(s), duration_of_secs(t)]
            duration_of_secs(s) == *since && duration_of_secs(t) == *timeout ==> (b <==> s >= t),
        *timeout == duration_of_secs(0) ==> b,
{
    duration_as_nanos(since) >= duration_as_nanos(timeout)
}

impl Default for CircuitBreakerConfig {
    fn default() -> (c: Self)
        ensures
            c.failure_threshold == 5,
            c.success_threshold == 2,
            c.timeout == duration_of_secs(30),
    {
        CircuitBreakerConfig { failure_threshold: 5, success_threshold: 2, timeout: duration_from_secs(30) }
    }
}

/// The abstract state of a breaker: what its decisions depend on, the time of
/// the last failure taken only by whether there is one.
pub struct CircuitBreakerView {
    pub state: CircuitState,
    pub failure_count: nat,
    pub success_count: nat,
    pub has_failure_time: bool,
    pub failure_threshold: nat,
    pub success_threshold: nat,
    pub timeout: Duration,
}

impl CircuitBreakerView {
    /// The states that the breaker's operations can reach from a fresh breaker.
    pub open spec fn wf(self) -> bool {
        &&& self.failure_threshold <= u32::MAX
        &&& self.success_threshold <= u32::MAX
        &&& self.failure_count <= self.failure_threshold + 1
        &&& self.state == CircuitState::Closed ==> (self.failure_count == 0 || self.failure_count < self.failure_threshold)
        &&& self.state != CircuitState::HalfOpen ==> self.success_count == 0
        &&& self.state == CircuitState::HalfOpen ==> (self.success_count == 0 || self.success_count < self.success_threshold)
        &&& self.state == CircuitState::Open ==> self.has_failure_time
    }

    /// A closed breaker with nothing counted, made with `config`.
    pub open spec fn fresh(config: CircuitBreakerConfig) -> Self {
        CircuitBreakerView {
            state: CircuitState::Closed,
            failure_count: 0,
            success_count: 0,
            has_failure_time: false,
            failure_threshold: config.failure_threshold as nat,
            success_threshold: config.success_threshold as nat,
            timeout: config.timeout,
        }
    }

    /// What a recorded success does.
    pub open spec fn after_success(self) -> Self {
        match self.state {
            CircuitState::Closed => CircuitBreakerView { failure_count: 0, ..self },
            CircuitState::HalfOpen => {
                if self.success_count + 1 >= self.success_threshold {
                    CircuitBreakerView { state: CircuitState::Closed, failure_count: 0, success_count: 0, ..self }
                } else {
                    CircuitBreakerView { success_count: self.success_count + 1, ..self }
                }
            },
            CircuitState::Open => self,
        }
    }

    /// What a recorded failure does; it also stamps the time of the failure.
    pub open spec fn after_failure(self) -> Self {
        let stamped = CircuitBreakerView { has_failure_time: true, ..self };
        match self.state {
            CircuitState::Closed => {
                if self.failure_count + 1 >= self.failure_threshold {
                    CircuitBreakerView { state: CircuitState::Open, failure_count: self.failure_count + 1, ..stamped }
                } else {
                    CircuitBreakerView { failure_count: self.failure_count + 1, ..stamped }
                }
            },
            CircuitState::HalfOpen => CircuitBreakerView { state: CircuitState::Open, success_count: 0, ..stamped },
            CircuitState::Open => stamped,
        }
    }

    /// Whether a request may pass, and the breaker afterwards, given whether
    /// the timeout has passed since the last failure.
    pub open spec fn admission(self, timeout_elapsed: bool) -> (bool, Self) {
        match self.state {
            CircuitState::Closed => (true, self),
            CircuitState::HalfOpen => (true, self),
            CircuitState::Open => {
                if self.has_failure_time && timeout_elapsed {
                    (true, CircuitBreakerView { state: CircuitState::HalfOpen, ..self })
                } else {
                    (false, self)
                }
            },
        }
    }

    /// What `reset` does.
    pub open spec fn after_reset(self) -> Self {
        CircuitBreakerView {
            state: CircuitState::Closed,
            failure_count: 0,
            success_count: 0,
            has_failure_time: false,
            ..self
        }
    }
}

/// A breaker for one upstream.
#[derive(Debug)]
pub struct CircuitBreaker {
    state: CircuitState,
    failure_count: u64,
    success_count: u64,
    last_failure_time: Option<Instant>,
    config: CircuitBreakerConfig,
}

impl View for CircuitBreaker {
    type V = CircuitBreakerView;

    closed spec fn view(&self) -> CircuitBreakerView {
        CircuitBreakerView {
            state: self.state,
            failure_count: self.failure_count as nat,
            success_count: self.success_count as nat,
            has_failure_time: self.last_failure_time is Some,
            failure_threshold: self.config.failure_threshold as nat,
            success_threshold: self.config.success_threshold as nat,
            timeout: self.config.timeout,
        }
    }
}

impl CircuitBreaker {
    #[verifier::type_invariant]
    closed spec fn inv(self) -> bool {
        self@.wf()
    }

    /// A closed breaker with nothing counted.
    pub fn new(config: CircuitBreakerConfig) -> (cb: Self)
        ensures
            cb@ == CircuitBreakerView::fresh(config),
    {
        CircuitBreaker { state: CircuitState::Closed, failure_count: 0, success_count: 0, last_failure_time: None, config }
    }

    /// Whether a request may pass, given whether the timeout has passed since
    /// the last failure. An open breaker whose timeout has passed turns
    /// half-open and lets the request through.
    pub fn is_allowed_given(&mut self, timeout_elapsed: bool) -> (allowed: bool)
        ensures
            (allowed, final(self)@) == old(self)@.admission(timeout_elapsed),
            final(self)@.wf(),
    {
        proof { use_type_invariant(&*self); }
        match self.state {
            CircuitState::Closed => true,
            CircuitState::HalfOpen => true,
            CircuitState::Open => {
                if self.last_failure_time.is_some() && timeout_elapsed {
                    self.state = CircuitState::HalfOpen;
                    true
                } else {
                    false
                }
            },
        }
    }

    /// Whether a request may pass now. Only an open breaker reads the clock:
    /// it compares the time since the last failure with its timeout, which a
    /// timeout of zero seconds has always reached.
    pub fn is_allowed(&mut self) -> (allowed: bool)
        ensures
            exists|timeout_elapsed: bool| (allowed, final(self)@) == #[trigger] old(self)@.admission(timeout_elapsed),
            old(self)@.state != CircuitState::Open ==> allowed && final(self)@ == old(self)@,
            allowed == (final(self)@.state != CircuitState::Open),
            old(self)@.timeout == duration_of_secs(0) ==> (allowed, final(self)@) == old(self)@.admission(true),
            final(self)@.wf(),
    {
        proof { use_type_invariant(&*self); }
        if let CircuitState::Open = self.state {
            if let Some(t) = &self.last_failure_time {
                let since = instant_elapsed(t);
                return self.is_allowed_after(&since);
            }
        }
        self.is_allowed_given(false)
    }

    /// Whether a request may pass when `since` has passed since the last
    /// failure: the timeout has passed when `since` is at least the timeout,
    /// compared in nanoseconds. With `s` whole seconds since the last failure
    /// and a timeout of `t` whole seconds, an open breaker lets the request
    /// through, turning half-open, exactly when `s >= t`.
    pub fn is_allowed_after(&mut self, since: &Duration) -> (allowed: bool)
        ensures
            forall|s: u64, t: u64|
                #![trigger duration_of_secs(s), duration_of_secs(t)]
                duration_of_secs(s) == *since && duration_of_secs(t) == old(self)@.timeout
                    ==> (allowed, final(self)@) == old(self)@.admission(s >= t),
            exists|timeout_elapsed: bool| (allowed, final(self)@) == #[trigger] old(self)@.admission(timeout_elapsed),
            old(self)@.timeout == duration_of_secs(0) ==> (allowed, final(self)@) == old(self)@.admission(true),
            final(self)@.wf(),
    {
        proof { use_type_invariant(&*self); }
        let elapsed = timeout_reached(since, &self.config.timeout);
        self.is_allowed_given(elapsed)
    }

    /// Records a successful request.
    pub fn record_success(&mut self)
        ensures
            final(self)@ == old(self)@.after_success(),
            final(self)@.wf(),
    {
        proof { use_type_invariant(&*self); }
        match self.state {
            CircuitState::Closed => {
                self.failure_count = 0;
            },
            CircuitState::HalfOpen => {
                let successes = self.success_count + 1;
                if successes >= self.config.success_threshold as u64 {
                    self.success_count = 0;
                    self.failure_count = 0;
                    self.state = CircuitState::Closed;
                } else {
                    self.success_count = successes;
                }
            },
            CircuitState::Open => {},
        }
    }

    /// Records a failed request, stamping the time of the failure.
    pub fn record_failure(&mut self)
        ensures
            final(self)@ == old(self)@.after_failure(),
            final(self)@.wf(),
    {
        proof { use_type_invariant(&*self); }
        self.last_failure_time = Some(instant_now());
        match self.state {
            CircuitState::Closed => {
                let failures = self.failure_count + 1;
                if failures >= self.config.failure_threshold as u64 {
                    self.state = CircuitState::Open;
                    self.failure_count = failures;
                } else {
                    self.failure_count = failures;
                }
            },
            CircuitState::HalfOpen => {
                self.success_count = 0;
                self.state = CircuitState::Open;
            },
            CircuitState::Open => {},
        }
    }

    /// The current state.
    pub fn get_state(&self) -> (s: CircuitState)
        ensures
            s == self@.state,
    {
        self.state
    }

    /// Closes the breaker and forgets all counts and the last failure.
    pub fn reset(&mut self)
        ensures
            final(self)@ == old(self)@.after_reset(),
            final(self)@.wf(),
    {
        proof { use_type_invariant(&*self); }
        self.failure_count = 0;
        self.success_count = 0;
        self.state = CircuitState::Closed;
        self.last_failure_time = None;
    }
}

/// The breakers of all upstreams, one per name.
pub struct CircuitBreakerRegistry {
    breakers: Table<CircuitBreaker>,
}

/// The views of the values of a map.
pub open spec fn breaker_views(m: Map<Seq<char>, CircuitBreaker>) -> Map<Seq<char>, CircuitBreakerView> {
    m.map_values(|b: CircuitBreaker| b@)
}

proof fn lemma_breaker_views_insert(m: Map<Seq<char>, CircuitBreaker>, k: Seq<char>)
    ensures
        forall|b: CircuitBreaker| #[trigger] breaker_views(m.insert(k, b)) == breaker_views(m).insert(k, b@),
{
    assert forall|b: CircuitBreaker| #[trigger] breaker_views(m.insert(k, b)) == breaker_views(m).insert(k, b@) by {
        assert(breaker_views(m.insert(k, b)) =~= breaker_views(m).insert(k, b@));
    }
}

impl View for CircuitBreakerRegistry {
    type V = Map<Seq<char>, CircuitBreakerView>;

    closed spec fn view(&self) -> Map<Seq<char>, CircuitBreakerView> {
        breaker_views(self.breakers@)
    }
}

impl CircuitBreakerRegistry {
    /// An empty registry.
    pub fn new() -> (r: Self)
        ensures
            r@ == Map::<Seq<char>, CircuitBreakerView>::empty(),
    {
        let r = CircuitBreakerRegistry { breakers: Table::new() };
        assert(r@ =~= Map::<Seq<char>, CircuitBreakerView>::empty());
        r
    }

    /// The breaker registered under `name`, made with `config` and registered
    /// first if there is none.
    pub fn get_or_create(&mut self, name: &str, config: CircuitBreakerConfig) -> (cb: &mut CircuitBreaker)
        ensures
            old(self)@.contains_key(name@) ==> cb@ == old(self)@[name@],
            !old(self)@.contains_key(name@) ==> cb@ == CircuitBreakerView::fresh(config),
            final(self)@ == old(self)@.insert(name@, final(cb)@),
    {
        proof { lemma_breaker_views_insert(self.breakers@, name@); }
        self.breakers.get_or_insert(name, CircuitBreaker::new(config))
    }

    /// The breaker registered under `name`, if there is one.
    pub fn get(&self, name: &str) -> (cb: Option<&CircuitBreaker>)
        ensures
            cb is Some <==> self@.contains_key(name@),
            cb matches Some(b) ==> b@ == self@[name@],
    {
        self.breakers.get(name)
    }
}

impl Default for CircuitBreakerRegistry {
    fn default() -> (r: Self)
        ensures
            r@ == Map::<Seq<char>, CircuitBreakerView>::empty(),
    {
        CircuitBreakerRegistry::new()
    }
}

/// The breaker after `n` recorded failures in a row.
pub open spec fn failures(v: CircuitBreakerView, n: nat) -> CircuitBreakerView
    decreases n,
{
    if n == 0 { v } else { failures(v, (n - 1) as nat).after_failure() }
}

/// The breaker after `n` recorded successes in a row.
pub open spec fn successes(v: CircuitBreakerView, n: nat) -> CircuitBreakerView
    decreases n,
{
    if n == 0 { v } else { successes(v, (n - 1) as nat).after_success() }
}

/// Every operation keeps a reachable breaker reachable.
pub proof fn lemma_operations_keep_wf(v: CircuitBreakerView, timeout_elapsed: bool)
    requires
        v.wf(),
    ensures
        v.after_success().wf(),
        v.after_failure().wf(),
        v.admission(timeout_elapsed).1.wf(),
        v.after_reset().wf(),
{
}

/// A request is let through exactly when the breaker is not open afterwards.
pub proof fn lemma_allowed_iff_not_open(v: CircuitBreakerView, timeout_elapsed: bool)
    requires
        v.wf(),
    ensures
        v.admission(timeout_elapsed).0 == (v.admission(timeout_elapsed).1.state != CircuitState::Open),
{
}

/// A closed breaker with no failures counted opens exactly when the number of
/// failures in a row reaches the failure threshold (and at the first failure
/// when that threshold is 0); until then it stays closed and counts them.
pub proof fn lemma_consecutive_failures_open(v: CircuitBreakerView, n: nat)
    requires
        v.wf(),
        v.state == CircuitState::Closed,
        v.failure_count == 0,
    ensures
        failures(v, n).state == CircuitState::Open <==> (n >= 1 && n >= v.failure_threshold),
        failures(v, n).state != CircuitState::Open ==> failures(v, n).state == CircuitState::Closed
            && failures(v, n).failure_count == n,
        failures(v, n).failure_threshold == v.failure_threshold,
        failures(v, n).wf(),
    decreases n,
{
    if n > 0 {
        let m = (n - 1) as nat;
        lemma_consecutive_failures_open(v, m);
        assert(failures(v, n) == failures(v, m).after_failure());
        if failures(v, m).state == CircuitState::Open {
            assert(m >= 1 && m >= v.failure_threshold);
        }
    }
}

/// A success while closed forgets the failures counted so far, so only
/// failures in a row open the breaker.
pub proof fn lemma_success_clears_failures(v: CircuitBreakerView)
    requires
        v.wf(),
        v.state == CircuitState::Closed,
    ensures
        v.after_success().state == CircuitState::Closed,
        v.after_success().failure_count == 0,
{
}

/// An open breaker refuses requests until the timeout has passed since the
/// last failure; then it lets one through and turns half-open.
pub proof fn lemma_open_waits_for_timeout(v: CircuitBreakerView, timeout_elapsed: bool)
    requires
        v.wf(),
        v.state == CircuitState::Open,
    ensures
        !timeout_elapsed ==> v.admission(timeout_elapsed) == (false, v),
        timeout_elapsed ==> v.admission(timeout_elapsed) == (true, CircuitBreakerView { state: CircuitState::HalfOpen, ..v }),
{
}

/// A half-open breaker closes, with all counts cleared, exactly when the
/// number of successes in a row reaches the success threshold (and at the
/// first success when that threshold is 0).
pub proof fn lemma_half_open_recovers(v: CircuitBreakerView, n: nat)
    requires
        v.wf(),
        v.state == CircuitState::HalfOpen,
        v.success_count == 0,
    ensures
        successes(v, n).state == CircuitState::Closed <==> (n >= 1 && n >= v.success_threshold),
        successes(v, n).state == CircuitState::Closed ==> successes(v, n).failure_count == 0
            && successes(v, n).success_count == 0,
        successes(v, n).state != CircuitState::Closed ==> successes(v, n).state == CircuitState::HalfOpen
            && successes(v, n).success_count == n,
        successes(v, n).success_threshold == v.success_threshold,
        successes(v, n).wf(),
    decreases n,
{
    if n > 0 {
        let m = (n - 1) as nat;
        lemma_half_open_recovers(v, m);
        assert(successes(v, n) == successes(v, m).after_success());
        if successes(v, m).state == CircuitState::Closed {
            assert(m >= 1 && m >= v.success_threshold);
        }
    }
}

/// One failure while half-open opens the breaker again and forgets the
/// successes counted.
pub proof fn lemma_half_open_failure_reopens(v: CircuitBreakerView)
    requires
        v.wf(),
        v.state == CircuitState::HalfOpen,
    ensures
        v.after_failure().state == CircuitState::Open,
        v.after_failure().success_count == 0,
{
}

/// After a reset the breaker is closed, counts nothing, and lets requests
/// through.
pub proof fn lemma_reset_closes(v: CircuitBreakerView, timeout_elapsed: bool)
    ensures
        v.after_reset().state == CircuitState::Closed,
        v.after_reset().failure_count == 0,
        v.after_reset().success_count == 0,
        v.after_reset().admission(timeout_elapsed).0,
{
}

} // verus!
