//! Per-key rate limiting with two token buckets per key: one counts requests,
//! one counts tokens. A bucket of capacity `c` starts full and refills at `c`
//! per minute, continuously, up to `c`.
//!
//! Bucket levels are kept exactly, in units of one token-nanosecond per minute
//! (a bucket holding `t` tokens has level `t * NANOS_PER_MINUTE`), so that a
//! refill over `e` nanoseconds adds exactly `e * c` to the level.

use std::time::{Duration, Instant};
use vstd::prelude::*;
use crate::clock::{duration_as_nanos, duration_of_secs, instant_elapsed, instant_now};
use crate::table::Table;

verus! {

/// Nanoseconds in a second.
pub const NANOS_PER_SECOND: u128 = 1_000_000_000;

/// Nanoseconds in a minute.
pub const NANOS_PER_MINUTE: u128 = 60_000_000_000;

/// Limits applied to every key.
#[derive(Debug, Clone, Copy, PartialEq, Eq, Structural)]
pub struct RateLimitConfig {
    pub enabled: bool,
    pub default_rpm: u32,
    pub default_tpm: u32,
    pub burst: u32,
}

/// Requests per minute when none is configured.
pub fn default_rpm() -> (n: u32)
    ensures
        n == 60,
{
    60
}

/// Tokens per minute when none is configured.
pub fn default_tpm() -> (n: u32)
    ensures
        n == 100000,
{
    100000
}

/// Burst capacity when none is configured.
pub fn default_burst() -> (n: u32)
    ensures
        n == 10,
{
    10
}

impl Default for RateLimitConfig {
    fn default() -> (c: Self)
        ensures
            c.enabled,
            c.default_rpm == 60,
            c.default_tpm == 100000,
            c.burst == 10,
    {
        RateLimitConfig { enabled: true, default_rpm: default_rpm(), default_tpm: default_tpm(), burst: default_burst() }
    }
}

/// The outcome of a check.
#[derive(Debug, Clone, Copy, PartialEq, Eq, Structural)]
pub enum RateLimitResult {
    Allowed,
    /// `limit`: whole tokens left in the bucket that refused, rounded up;
    /// `retry_after`: whole seconds until it holds enough, rounded up.
    Denied { limit: u32, retry_after: u32 },
}

/// What is left for a key.
#[derive(Debug, Clone, Copy, PartialEq, Eq, Structural)]
pub struct RateLimitStatus {
    pub requests_available: u32,
    pub tokens_available: u32,
}

/// A bucket, abstractly: its level (tokens times `NANOS_PER_MINUTE`), the
/// clock reading of its last refill (nanoseconds), and its capacity.
pub struct BucketState {
    pub level: nat,
    pub last_update: nat,
    pub capacity: nat,
}

impl BucketState {
    /// Never above full, and a capacity that fits in a `u32`.
    pub open spec fn wf(self) -> bool {
        &&& self.capacity <= u32::MAX
        &&& self.level <= self.capacity * NANOS_PER_MINUTE
    }

    /// A full bucket made at clock reading `now`.
    pub open spec fn fresh(capacity: nat, now: nat) -> Self {
        BucketState { level: (capacity * NANOS_PER_MINUTE) as nat, last_update: now, capacity }
    }

    /// The bucket refilled up to clock reading `now`; a reading before the
    /// last refill counts as no time passed.
    pub open spec fn refilled(self, now: nat) -> Self {
        let elapsed: nat = if now >= self.last_update { (now - self.last_update) as nat } else { 0 };
        let full = (self.capacity * NANOS_PER_MINUTE) as nat;
        let raised = self.level + elapsed * self.capacity;
        BucketState { level: if raised < full { raised } else { full }, last_update: now, ..self }
    }

    /// Refill to `now`, then take `amount` tokens if the bucket holds them.
    pub open spec fn acquire(self, amount: nat, now: nat) -> (bool, Self) {
        let b = self.refilled(now);
        if b.level >= amount * NANOS_PER_MINUTE {
            (true, BucketState { level: (b.level - amount * NANOS_PER_MINUTE) as nat, ..b })
        } else {
            (false, b)
        }
    }

    /// Whole tokens held, rounded up.
    pub open spec fn available(self) -> nat {
        (self.level + NANOS_PER_MINUTE - 1) as nat / NANOS_PER_MINUTE as nat
    }

    /// Whole seconds until the bucket holds `amount` tokens, rounded up
    /// (0 when it already does).
    pub open spec fn seconds_to_refill(self, amount: nat) -> nat {
        if self.level >= amount * NANOS_PER_MINUTE {
            0
        } else {
            let deficit = (amount * NANOS_PER_MINUTE - self.level) as nat;
            let per_second = (self.capacity * NANOS_PER_SECOND) as nat;
            (deficit + per_second - 1) as nat / per_second
        }
    }
}

/// The seconds of a denial as the `u32` that reports them: the low 32 bits.
pub open spec fn as_reported_seconds(secs: nat) -> u32 {
    (secs % 0x1_0000_0000) as u32
}

/// A limiter, abstractly: its configuration and, per key, its request bucket
/// and its token bucket.
pub struct RateLimiterView {
    pub config: RateLimitConfig,
    pub buckets: Map<Seq<char>, (BucketState, BucketState)>,
}

impl RateLimiterView {
    /// Every bucket is well formed and has the configured capacity.
    pub open spec fn wf(self) -> bool {
        forall|k: Seq<char>| #[trigger] self.buckets.contains_key(k) ==> {
            &&& self.buckets[k].0.wf()
            &&& self.buckets[k].1.wf()
            &&& self.buckets[k].0.capacity == self.config.default_rpm
            &&& self.buckets[k].1.capacity == self.config.default_tpm
        }
    }

    /// The buckets of `key`, fresh ones made at `now` if it has none.
    pub open spec fn buckets_for(self, key: Seq<char>, now: nat) -> (BucketState, BucketState) {
        if self.buckets.contains_key(key) {
            self.buckets[key]
        } else {
            (
                BucketState::fresh(self.config.default_rpm as nat, now),
                BucketState::fresh(self.config.default_tpm as nat, now),
            )
        }
    }

    /// A check of `key` for one request of `tokens_needed` tokens at clock
    /// reading `now`: the request bucket must give one request, then the
    /// token bucket the tokens. Both buckets of a key are kept from its first
    /// check on.
    pub open spec fn check(self, key: Seq<char>, tokens_needed: nat, now: nat) -> (RateLimitResult, Self) {
        if !self.config.enabled {
            (RateLimitResult::Allowed, self)
        } else {
            let (rb, tb) = self.buckets_for(key, now);
            let (ok_request, rb2) = rb.acquire(1, now);
            if !ok_request {
                (
                    RateLimitResult::Denied {
                        limit: rb2.available() as u32,
                        retry_after: as_reported_seconds(rb2.seconds_to_refill(1)),
                    },
                    RateLimiterView { buckets: self.buckets.insert(key, (rb2, tb)), ..self },
                )
            } else {
                let (ok_tokens, tb2) = tb.acquire(tokens_needed, now);
                let after = RateLimiterView { buckets: self.buckets.insert(key, (rb2, tb2)), ..self };
                if !ok_tokens {
                    (
                        RateLimitResult::Denied {
                            limit: tb2.available() as u32,
                            retry_after: as_reported_seconds(tb2.seconds_to_refill(tokens_needed)),
                        },
                        after,
                    )
                } else {
                    (RateLimitResult::Allowed, after)
                }
            }
        }
    }

    /// The checks that cannot report how long to wait: a bucket of capacity 0
    /// refuses and never refills.
    pub open spec fn check_has_no_wait(self, key: Seq<char>, tokens_needed: nat, now: nat) -> bool {
        &&& self.config.enabled
        &&& {
            let (rb, tb) = self.buckets_for(key, now);
            let (ok_request, _) = rb.acquire(1, now);
            if !ok_request {
                rb.capacity == 0
            } else {
                tb.capacity == 0 && !tb.acquire(tokens_needed, now).0
            }
        }
    }

    /// What is left for `key`, without refilling; the configured limits for a
    /// key never checked.
    pub open spec fn status(self, key: Seq<char>) -> RateLimitStatus {
        if self.buckets.contains_key(key) {
            RateLimitStatus {
                requests_available: self.buckets[key].0.available() as u32,
                tokens_available: self.buckets[key].1.available() as u32,
            }
        } else {
            RateLimitStatus { requests_available: self.config.default_rpm, tokens_available: self.config.default_tpm }
        }
    }
}

struct Bucket {
    level: u128,
    last_update: u128,
    capacity: u32,
}

impl Bucket {
    spec fn state(self) -> BucketState {
        BucketState { level: self.level as nat, last_update: self.last_update as nat, capacity: self.capacity as nat }
    }

    fn new(capacity: u32, now: u128) -> (b: Bucket)
        ensures
            b.state() == BucketState::fresh(capacity as nat, now as nat),
            b.state().wf(),
    {
        Bucket { level: capacity as u128 * NANOS_PER_MINUTE, last_update: now, capacity }
    }

    fn refill(&mut self, now: u128)
        requires
            old(self).state().wf(),
        ensures
            final(self).state() == old(self).state().refilled(now as nat),
            final(self).state().wf(),
    {
        let elapsed: u128 = if now >= self.last_update { now - self.last_update } else { 0 };
        let full: u128 = self.capacity as u128 * NANOS_PER_MINUTE;
        let cap = self.capacity as u128;
        if elapsed >= NANOS_PER_MINUTE {
            proof {
                assert(elapsed * cap >= NANOS_PER_MINUTE * cap) by (nonlinear_arith)
                    requires elapsed >= NANOS_PER_MINUTE;
            }
            self.level = full;
        } else {
            proof {
                assert(elapsed * cap <= NANOS_PER_MINUTE * 0x1_0000_0000) by (nonlinear_arith)
                    requires elapsed < NANOS_PER_MINUTE, cap < 0x1_0000_0000;
            }
            let raised = self.level + elapsed * cap;
            self.level = if raised < full { raised } else { full };
        }
        self.last_update = now;
    }

    fn try_acquire(&mut self, amount: u32, now: u128) -> (ok: bool)
        requires
            old(self).state().wf(),
        ensures
            (ok, final(self).state()) == old(self).state().acquire(amount as nat, now as nat),
            final(self).state().wf(),
    {
        self.refill(now);
        let needed: u128 = amount as u128 * NANOS_PER_MINUTE;
        if self.level >= needed {
            self.level = self.level - needed;
            true
        } else {
            false
        }
    }

    fn available(&self) -> (n: u32)
        requires
            self.state().wf(),
        ensures
            n == self.state().available(),
    {
        let cap = self.capacity as u128;
        proof {
            let l = self.level as int;
            assert((l + NANOS_PER_MINUTE - 1) / (NANOS_PER_MINUTE as int) <= cap) by (nonlinear_arith)
                requires 0 <= l <= cap * NANOS_PER_MINUTE, NANOS_PER_MINUTE > 0;
        }
        ((self.level + NANOS_PER_MINUTE - 1) / NANOS_PER_MINUTE) as u32
    }

    fn seconds_to_refill(&self, amount: u32) -> (secs: u32)
        requires
            self.state().wf(),
            self.capacity > 0,
        ensures
            secs == as_reported_seconds(self.state().seconds_to_refill(amount as nat)),
    {
        let needed: u128 = amount as u128 * NANOS_PER_MINUTE;
        if self.level >= needed {
            0
        } else {
            let deficit = needed - self.level;
            let per_second: u128 = self.capacity as u128 * NANOS_PER_SECOND;
            let whole = (deficit + per_second - 1) / per_second;
            (whole % 0x1_0000_0000) as u32
        }
    }
}

struct BucketPair {
    request: Bucket,
    token: Bucket,
}

spec fn pair_states(m: Map<Seq<char>, BucketPair>) -> Map<Seq<char>, (BucketState, BucketState)> {
    m.map_values(|p: BucketPair| (p.request.state(), p.token.state()))
}

proof fn lemma_pair_states_insert(m: Map<Seq<char>, BucketPair>, k: Seq<char>)
    ensures
        forall|p: BucketPair| #[trigger] pair_states(m.insert(k, p)) == pair_states(m).insert(k, (p.request.state(), p.token.state())),
{
    assert forall|p: BucketPair| #[trigger] pair_states(m.insert(k, p)) == pair_states(m).insert(k, (p.request.state(), p.token.state())) by {
        assert(pair_states(m.insert(k, p)) =~= pair_states(m).insert(k, (p.request.state(), p.token.state())));
    }
}

/// Rate limits per key.
pub struct RateLimiter {
    buckets: Table<BucketPair>,
    config: RateLimitConfig,
    origin: Instant,
}

impl View for RateLimiter {
    type V = RateLimiterView;

    closed spec fn view(&self) -> RateLimiterView {
        RateLimiterView { config: self.config, buckets: pair_states(self.buckets@) }
    }
}

impl RateLimiter {
    #[verifier::type_invariant]
    closed spec fn inv(self) -> bool {
        self@.wf()
    }

    /// A limiter with no buckets yet. Its clock starts now.
    pub fn new(config: RateLimitConfig) -> (l: Self)
        ensures
            l@.config == config,
            l@.buckets == Map::<Seq<char>, (BucketState, BucketState)>::empty(),
    {
        let l = RateLimiter { buckets: Table::new(), config, origin: instant_now() };
        assert(l@.buckets =~= Map::<Seq<char>, (BucketState, BucketState)>::empty());
        l
    }

    /// Checks one request of `tokens_needed` tokens for `key` at clock reading
    /// `now` (nanoseconds since the limiter was made).
    pub fn check_rate_limit_at(&mut self, key: &str, tokens_needed: u32, now: u128) -> (r: RateLimitResult)
        requires
            !old(self)@.check_has_no_wait(key@, tokens_needed as nat, now as nat),
        ensures
            (r, final(self)@) == old(self)@.check(key@, tokens_needed as nat, now as nat),
            final(self)@.wf(),
    {
        proof { use_type_invariant(&*self); }
        if !self.config.enabled {
            return RateLimitResult::Allowed;
        }
        let ghost before = self@;
        let rpm = self.config.default_rpm;
        let tpm = self.config.default_tpm;
        proof {
            lemma_pair_states_insert(self.buckets@, key@);
            self.buckets.lemma_position(key@);
        }
        let fresh = BucketPair { request: Bucket::new(rpm, now), token: Bucket::new(tpm, now) };
        let mut buckets = Table::new();
        std::mem::swap(&mut buckets, &mut self.buckets);
        let ghost table_before = buckets;
        let pair = buckets.get_or_insert(key, fresh);
        proof {
            if table_before@.contains_key(key@) {
                assert(before.buckets.contains_key(key@));
            }
        }
        let ok_request = pair.request.try_acquire(1, now);
        let r = if !ok_request {
            let limit = pair.request.available();
            let retry_after = pair.request.seconds_to_refill(1);
            RateLimitResult::Denied { limit, retry_after }
        } else {
            let ok_tokens = pair.token.try_acquire(tokens_needed, now);
            if !ok_tokens {
                let limit = pair.token.available();
                let retry_after = pair.token.seconds_to_refill(tokens_needed);
                RateLimitResult::Denied { limit, retry_after }
            } else {
                RateLimitResult::Allowed
            }
        };
        self.buckets = buckets;
        proof {
            assert(self@.buckets =~= before.check(key@, tokens_needed as nat, now as nat).1.buckets);
        }
        r
    }

    /// Nanoseconds since the limiter was made, by the clock.
    /// The clock reading of a limiter `since` after it was made: the
    /// nanoseconds in `since`, so that `s` whole seconds read as `s` times
    /// `NANOS_PER_SECOND`.
    fn clock_nanos(since: &Duration) -> (n: u128)
        ensures
            forall|s: u64| #[trigger] duration_of_secs(s) == *since ==> n == s * NANOS_PER_SECOND,
    {
        duration_as_nanos(since)
    }

    /// Checks one request of `tokens_needed` tokens for `key`, `since` after
    /// the limiter was made: `s` whole seconds after it, the check is made at
    /// clock reading `s * NANOS_PER_SECOND` nanoseconds.
    pub fn check_rate_limit_after(&mut self, key: &str, tokens_needed: u32, since: &Duration) -> (r: RateLimitResult)
        requires
            old(self)@.config.enabled ==> old(self)@.config.default_rpm > 0,
            old(self)@.config.enabled && tokens_needed > 0 ==> old(self)@.config.default_tpm > 0,
        ensures
            forall|s: u64| #[trigger] duration_of_secs(s) == *since
                ==> (r, final(self)@) == old(self)@.check(key@, tokens_needed as nat, (s * NANOS_PER_SECOND) as nat),
            exists|now: nat| (r, final(self)@) == #[trigger] old(self)@.check(key@, tokens_needed as nat, now),
            final(self)@.config == old(self)@.config,
    {
        proof { use_type_invariant(&*self); }
        let now = Self::clock_nanos(since);
        proof {
            if self@.buckets.contains_key(key@) {
                assert(self@.buckets[key@].0.capacity == self@.config.default_rpm);
            }
        }
        self.check_rate_limit_at(key, tokens_needed, now)
    }

    /// Checks one request of `tokens_needed` tokens for `key` now: at the
    /// time that has passed since the limiter was made (see
    /// `check_rate_limit_after`).
    pub fn check_rate_limit(&mut self, key: &str, tokens_needed: u32) -> (r: RateLimitResult)
        requires
            old(self)@.config.enabled ==> old(self)@.config.default_rpm > 0,
            old(self)@.config.enabled && tokens_needed > 0 ==> old(self)@.config.default_tpm > 0,
        ensures
            exists|now: nat| (r, final(self)@) == #[trigger] old(self)@.check(key@, tokens_needed as nat, now),
            final(self)@.config == old(self)@.config,
    {
        let since = instant_elapsed(&self.origin);
        self.check_rate_limit_after(key, tokens_needed, &since)
    }

    /// The limiter's configuration.
    pub fn config(&self) -> (c: RateLimitConfig)
        ensures
            c == self@.config,
    {
        self.config
    }

    /// What is left for `key`, without refilling.
    pub fn get_status(&self, key: &str) -> (s: RateLimitStatus)
        ensures
            s == self@.status(key@),
    {
        proof { use_type_invariant(self); }
        match self.buckets.get(key) {
            Some(pair) => {
                proof { assert(self@.buckets.contains_key(key@)); }
                RateLimitStatus { requests_available: pair.request.available(), tokens_available: pair.token.available() }
            },
            None => RateLimitStatus { requests_available: self.config.default_rpm, tokens_available: self.config.default_tpm },
        }
    }
}

/// A disabled limiter lets every request through and keeps no state.
pub proof fn lemma_disabled_allows(v: RateLimiterView, key: Seq<char>, tokens_needed: nat, now: nat)
    requires
        !v.config.enabled,
    ensures
        v.check(key, tokens_needed, now) == (RateLimitResult::Allowed, v),
{
}

/// A check of one key leaves the buckets of every other key as they were.
pub proof fn lemma_keys_independent(v: RateLimiterView, key: Seq<char>, other: Seq<char>, tokens_needed: nat, now: nat)
    requires
        other != key,
    ensures
        v.check(key, tokens_needed, now).1.buckets.contains_key(other) == v.buckets.contains_key(other),
        v.buckets.contains_key(other) ==> v.check(key, tokens_needed, now).1.buckets[other] == v.buckets[other],
        v.check(key, tokens_needed, now).1.config == v.config,
{
}

/// A check keeps every bucket within its capacity.
pub proof fn lemma_check_keeps_wf(v: RateLimiterView, key: Seq<char>, tokens_needed: nat, now: nat)
    requires
        v.wf(),
    ensures
        v.check(key, tokens_needed, now).1.wf(),
{
    let (rb, tb) = v.buckets_for(key, now);
    lemma_acquire_keeps_wf(rb, 1, now);
    lemma_acquire_keeps_wf(tb, tokens_needed, now);
}

/// Refilling and taking tokens keep a bucket within its capacity.
pub proof fn lemma_acquire_keeps_wf(b: BucketState, amount: nat, now: nat)
    requires
        b.wf(),
    ensures
        b.refilled(now).wf(),
        b.acquire(amount, now).1.wf(),
{
}

/// A refused request takes nothing: the bucket that refused is only refilled.
pub proof fn lemma_denial_takes_nothing(b: BucketState, amount: nat, now: nat)
    requires
        !b.acquire(amount, now).0,
    ensures
        b.acquire(amount, now).1 == b.refilled(now),
        b.refilled(now).level < amount * NANOS_PER_MINUTE,
{
}

/// When a bucket of positive capacity refuses `amount` tokens that it could
/// hold, the wait it reports is at least a second, and waiting that long
/// refills it enough.
pub proof fn lemma_retry_after_suffices(b: BucketState, amount: nat, now: nat)
    requires
        b.wf(),
        b.capacity > 0,
        amount <= b.capacity,
        !b.acquire(amount, now).0,
    ensures
        ({
            let after = b.acquire(amount, now).1;
            let wait = after.seconds_to_refill(amount);
            &&& wait >= 1
            &&& after.acquire(amount, (now + wait * NANOS_PER_SECOND) as nat).0
        }),
{
    let after = b.refilled(now);
    let deficit = (amount * NANOS_PER_MINUTE - after.level) as nat;
    let per_second = (after.capacity * NANOS_PER_SECOND) as nat;
    let wait = (deficit + per_second - 1) as nat / per_second;
    assert(per_second > 0) by (nonlinear_arith)
        requires per_second == after.capacity * NANOS_PER_SECOND, after.capacity > 0;
    assert(wait >= 1) by (nonlinear_arith)
        requires wait == (deficit + per_second - 1) as nat / per_second, deficit > 0, per_second > 0;
    assert(wait * per_second >= deficit) by (nonlinear_arith)
        requires wait == (deficit + per_second - 1) as nat / per_second, per_second > 0;
    let elapsed = wait * NANOS_PER_SECOND;
    assert(elapsed * after.capacity == wait * per_second) by (nonlinear_arith)
        requires elapsed == wait * NANOS_PER_SECOND, per_second == after.capacity * NANOS_PER_SECOND;
    assert(after.capacity * NANOS_PER_MINUTE >= amount * NANOS_PER_MINUTE) by (nonlinear_arith)
        requires amount <= after.capacity;
}

/// Checks of one key at one clock reading, `n` of them in a row.
pub open spec fn checks(v: RateLimiterView, key: Seq<char>, tokens_needed: nat, now: nat, n: nat) -> RateLimiterView
    decreases n,
{
    if n == 0 { v } else { checks(v, key, tokens_needed, now, (n - 1) as nat).check(key, tokens_needed, now).1 }
}

/// Refilling at the reading of the last refill changes nothing.
pub proof fn lemma_refill_same_reading(b: BucketState)
    requires
        b.wf(),
    ensures
        b.refilled(b.last_update) == b,
{
    assert(0 * b.capacity == 0) by (nonlinear_arith);
}

/// The request and token buckets of a key never checked before, after `n`
/// checks at one clock reading in which neither bucket ran out.
pub open spec fn buckets_after_burst(config: RateLimitConfig, tokens_needed: nat, now: nat, n: nat) -> (BucketState, BucketState) {
    (
        BucketState { level: ((config.default_rpm - n) * NANOS_PER_MINUTE) as nat, last_update: now, capacity: config.default_rpm as nat },
        BucketState { level: ((config.default_tpm - n * tokens_needed) * NANOS_PER_MINUTE) as nat, last_update: now, capacity: config.default_tpm as nat },
    )
}

proof fn lemma_burst_state(v: RateLimiterView, key: Seq<char>, tokens_needed: nat, now: nat, n: nat)
    requires
        v.config.enabled,
        !v.buckets.contains_key(key),
        tokens_needed * v.config.default_rpm <= v.config.default_tpm,
        n <= v.config.default_rpm,
    ensures
        checks(v, key, tokens_needed, now, n).config == v.config,
        checks(v, key, tokens_needed, now, n).buckets_for(key, now) == buckets_after_burst(v.config, tokens_needed, now, n),
    decreases n,
{
    let rpm = v.config.default_rpm as nat;
    let tpm = v.config.default_tpm as nat;
    if n > 0 {
        let m = (n - 1) as nat;
        lemma_burst_state(v, key, tokens_needed, now, m);
        let w = checks(v, key, tokens_needed, now, m);
        let (rb, tb) = w.buckets_for(key, now);
        assert(m * tokens_needed + tokens_needed <= rpm * tokens_needed) by (nonlinear_arith)
            requires m + 1 <= rpm;
        assert(tokens_needed * rpm == rpm * tokens_needed) by (nonlinear_arith);
        assert(rb.wf()) by (nonlinear_arith)
            requires rb.level == (rpm - m) * NANOS_PER_MINUTE, rb.capacity == rpm, m <= rpm, rpm <= u32::MAX;
        assert(tb.wf()) by (nonlinear_arith)
            requires tb.level == (tpm - m * tokens_needed) * NANOS_PER_MINUTE, tb.capacity == tpm,
                m * tokens_needed <= tpm, tpm <= u32::MAX;
        lemma_refill_same_reading(rb);
        lemma_refill_same_reading(tb);
        assert((rpm - m) * NANOS_PER_MINUTE - NANOS_PER_MINUTE == (rpm - n) * NANOS_PER_MINUTE) by (nonlinear_arith)
            requires n == m + 1;
        assert((rpm - m) * NANOS_PER_MINUTE >= NANOS_PER_MINUTE) by (nonlinear_arith)
            requires m + 1 <= rpm;
        assert((tpm - m * tokens_needed) * NANOS_PER_MINUTE >= tokens_needed * NANOS_PER_MINUTE) by (nonlinear_arith)
            requires m * tokens_needed + tokens_needed <= tpm;
        assert((tpm - m * tokens_needed) * NANOS_PER_MINUTE - tokens_needed * NANOS_PER_MINUTE
            == (tpm - n * tokens_needed) * NANOS_PER_MINUTE) by (nonlinear_arith)
            requires n == m + 1;
        assert(checks(v, key, tokens_needed, now, n) == w.check(key, tokens_needed, now).1);
    }
}

/// A key never checked before gets exactly `default_rpm` requests through
/// at one clock reading when its tokens do not run out first; the next one
/// is refused.
pub proof fn lemma_requests_per_minute(v: RateLimiterView, key: Seq<char>, tokens_needed: nat, now: nat, n: nat)
    requires
        v.config.enabled,
        !v.buckets.contains_key(key),
        tokens_needed * v.config.default_rpm <= v.config.default_tpm,
        n <= v.config.default_rpm,
    ensures
        n < v.config.default_rpm ==> checks(v, key, tokens_needed, now, n).check(key, tokens_needed, now).0 == RateLimitResult::Allowed,
        n == v.config.default_rpm ==> (checks(v, key, tokens_needed, now, n).check(key, tokens_needed, now).0 is Denied),
{
    lemma_burst_state(v, key, tokens_needed, now, n);
    let rpm = v.config.default_rpm as nat;
    let tpm = v.config.default_tpm as nat;
    let (rb, tb) = buckets_after_burst(v.config, tokens_needed, now, n);
    assert(n * tokens_needed <= rpm * tokens_needed) by (nonlinear_arith)
        requires n <= rpm;
    assert(tokens_needed * rpm == rpm * tokens_needed) by (nonlinear_arith);
    assert(rb.wf()) by (nonlinear_arith)
        requires rb.level == (rpm - n) * NANOS_PER_MINUTE, rb.capacity == rpm, n <= rpm, rpm <= u32::MAX;
    assert(tb.wf()) by (nonlinear_arith)
        requires tb.level == (tpm - n * tokens_needed) * NANOS_PER_MINUTE, tb.capacity == tpm,
            n * tokens_needed <= tpm, tpm <= u32::MAX;
    lemma_refill_same_reading(rb);
    lemma_refill_same_reading(tb);
    if n < rpm {
        assert(n * tokens_needed + tokens_needed <= rpm * tokens_needed) by (nonlinear_arith)
            requires n + 1 <= rpm;
        assert((rpm - n) * NANOS_PER_MINUTE >= NANOS_PER_MINUTE) by (nonlinear_arith)
            requires n + 1 <= rpm;
        assert((tpm - n * tokens_needed) * NANOS_PER_MINUTE >= tokens_needed * NANOS_PER_MINUTE) by (nonlinear_arith)
            requires n * tokens_needed + tokens_needed <= tpm;
    } else {
        assert((rpm - n) * NANOS_PER_MINUTE == 0) by (nonlinear_arith)
            requires n == rpm;
    }
}

/// A bucket that has not been refilled for a minute or more is full again,
/// whatever it held.
pub proof fn lemma_minute_refills(b: BucketState, now: nat)
    requires
        b.wf(),
        b.last_update + NANOS_PER_MINUTE <= now,
    ensures
        b.refilled(now).level == b.capacity * NANOS_PER_MINUTE,
{
    let elapsed = (now - b.last_update) as nat;
    assert(elapsed * b.capacity >= NANOS_PER_MINUTE * b.capacity) by (nonlinear_arith)
        requires elapsed >= NANOS_PER_MINUTE;
    assert(NANOS_PER_MINUTE * b.capacity == b.capacity * NANOS_PER_MINUTE) by (nonlinear_arith);
}

/// A key whose buckets were last refilled a minute or more before `now` (or
/// that has none yet) gets a request through at `now`, as long as a request
/// and its tokens fit in the limits.
pub proof fn lemma_key_rested_allowed(v: RateLimiterView, key: Seq<char>, tokens_needed: nat, now: nat)
    requires
        v.wf(),
        v.config.default_rpm >= 1,
        tokens_needed <= v.config.default_tpm,
        v.buckets.contains_key(key) ==> v.buckets[key].0.last_update + NANOS_PER_MINUTE <= now
            && v.buckets[key].1.last_update + NANOS_PER_MINUTE <= now,
    ensures
        v.check(key, tokens_needed, now).0 == RateLimitResult::Allowed,
{
    if v.config.enabled {
        let (rb, tb) = v.buckets_for(key, now);
        let rpm = v.config.default_rpm as nat;
        let tpm = v.config.default_tpm as nat;
        if v.buckets.contains_key(key) {
            lemma_minute_refills(rb, now);
            lemma_minute_refills(tb, now);
        } else {
            assert(rb.wf() && tb.wf()) by (nonlinear_arith)
                requires rb.level == rpm * NANOS_PER_MINUTE, rb.capacity == rpm,
                    tb.level == tpm * NANOS_PER_MINUTE, tb.capacity == tpm, rpm <= u32::MAX, tpm <= u32::MAX;
            lemma_refill_same_reading(rb);
            lemma_refill_same_reading(tb);
        }
        assert(rpm * NANOS_PER_MINUTE >= 1 * NANOS_PER_MINUTE) by (nonlinear_arith)
            requires rpm >= 1;
        assert(tpm * NANOS_PER_MINUTE >= tokens_needed * NANOS_PER_MINUTE) by (nonlinear_arith)
            requires tokens_needed <= tpm;
        let rb2 = rb.acquire(1, now).1;
        assert(rb2.last_update == now);
        let tb2 = tb.refilled(now);
        assert(tb2.level == tpm * NANOS_PER_MINUTE);
    }
}

/// Two checks of a key, the second at least a minute after the first: the
/// second gets its request through, whatever the first did, as long as a
/// request and its tokens fit in the limits. Clock readings do not go back:
/// the key's buckets were last refilled no later than the first check.
pub proof fn lemma_minute_later_allowed(v: RateLimiterView, key: Seq<char>, tokens_needed: nat, first: nat, second: nat)
    requires
        v.wf(),
        v.config.default_rpm >= 1,
        tokens_needed <= v.config.default_tpm,
        v.buckets.contains_key(key) ==> v.buckets[key].0.last_update <= first && v.buckets[key].1.last_update <= first,
        first + NANOS_PER_MINUTE <= second,
    ensures
        v.check(key, tokens_needed, first).1.check(key, tokens_needed, second).0 == RateLimitResult::Allowed,
{
    lemma_check_keeps_wf(v, key, tokens_needed, first);
    let w = v.check(key, tokens_needed, first).1;
    if v.config.enabled {
        assert(w.buckets.contains_key(key));
        assert(w.buckets[key].0.last_update == first);
        assert(w.buckets[key].1.last_update <= first);
    }
    lemma_key_rested_allowed(w, key, tokens_needed, second);
}

} // verus!
