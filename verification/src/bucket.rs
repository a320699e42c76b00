//! The token bucket of one client: its fixed-point level, its refill and the
//! drawing of one token.
//!
//! Time is counted in milliseconds and the level in thousandths of a token, so
//! that a rate of `r` tokens per second adds exactly `r` thousandths per
//! millisecond and nothing is ever rounded.
//!
//! A limit is a positive number of requests per second: a bucket of no
//! capacity, or one that never refills, is no rate limit, and no function
//! here takes one.

use vstd::prelude::*;

verus! {

/// One token, in the unit of a bucket's level; also the milliseconds in one second.
pub const TOKEN: u64 = 1000;

/// The answer of the rate limiter to one request.
#[derive(Clone, Copy, Debug, PartialEq, Eq, Structural)]
pub enum Decision {
    Allowed,
    Exceeded,
}

/// What a bucket is, as numbers.
pub struct BucketState {
    /// The most whole tokens the bucket holds.
    pub capacity: nat,
    /// The level, in thousandths of a token.
    pub level: nat,
    /// Tokens gained per second.
    pub refill_rate: nat,
    /// The millisecond at which the level was last brought up to date.
    pub last_refill: nat,
}

/// The milliseconds from `last` to `now`; none when the clock stepped back.
pub open spec fn elapsed(last: nat, now: nat) -> nat {
    if now >= last {
        (now - last) as nat
    } else {
        0
    }
}

/// The level of a full bucket of `capacity` tokens.
pub open spec fn brim(capacity: nat) -> nat {
    capacity * (TOKEN as nat)
}

impl BucketState {
    /// The level never exceeds the capacity.
    pub open spec fn wf(self) -> bool {
        self.level <= brim(self.capacity)
    }

    /// The bucket can hold a token and gains tokens: both limits are positive.
    pub open spec fn limited(self) -> bool {
        self.capacity >= 1 && self.refill_rate >= 1
    }

    /// A bucket created full at `now`.
    pub open spec fn full(capacity: nat, refill_rate: nat, now: nat) -> BucketState {
        BucketState { capacity, level: brim(capacity), refill_rate, last_refill: now }
    }

    /// The level that the bucket reaches at `now` if nothing is drawn meanwhile.
    pub open spec fn level_at(self, now: nat) -> nat {
        let grown = self.level + elapsed(self.last_refill, now) * self.refill_rate;
        if grown >= brim(self.capacity) {
            brim(self.capacity)
        } else {
            grown
        }
    }

    /// The bucket with its limits replaced, and its level cut to the new capacity.
    pub open spec fn retuned(self, capacity: nat, refill_rate: nat) -> BucketState {
        BucketState {
            capacity,
            refill_rate,
            level: if self.level >= brim(capacity) {
                brim(capacity)
            } else {
                self.level
            },
            ..self
        }
    }

    /// The bucket brought up to date at `now`.
    pub open spec fn refilled(self, now: nat) -> BucketState {
        BucketState { level: self.level_at(now), last_refill: now, ..self }
    }

    /// Does the bucket hold a whole token?
    pub open spec fn admits(self) -> bool {
        self.level >= TOKEN
    }

    /// The bucket after one request: a token less if it held one, else unchanged.
    pub open spec fn drawn(self) -> BucketState {
        if self.admits() {
            BucketState { level: (self.level - TOKEN) as nat, ..self }
        } else {
            self
        }
    }

    /// The answer to one request.
    pub open spec fn verdict(self) -> Decision {
        if self.admits() {
            Decision::Allowed
        } else {
            Decision::Exceeded
        }
    }
}

/// The bucket of a client just before a request at `now` draws from it: a new
/// client starts with a full bucket, a known one is retuned to the limits of
/// this request and refilled.
pub open spec fn ready(prev: Option<BucketState>, now: nat, capacity: nat, refill_rate: nat) -> BucketState {
    match prev {
        None => BucketState::full(capacity, refill_rate, now),
        Some(b) => b.retuned(capacity, refill_rate).refilled(now),
    }
}

/// The answer to a request at `now` of a client whose bucket was `prev`.
pub open spec fn decision(prev: Option<BucketState>, now: nat, capacity: nat, refill_rate: nat) -> Decision {
    ready(prev, now, capacity, refill_rate).verdict()
}

/// The bucket that the request leaves behind.
pub open spec fn after_check(prev: Option<BucketState>, now: nat, capacity: nat, refill_rate: nat) -> BucketState {
    ready(prev, now, capacity, refill_rate).drawn()
}

/// The token bucket of one client.
#[derive(Clone, Copy, Debug)]
pub struct Bucket {
    capacity: u32,
    level: u64,
    refill_rate: u32,
    last_refill: u64,
}

impl View for Bucket {
    type V = BucketState;

    closed spec fn view(&self) -> BucketState {
        BucketState {
            capacity: self.capacity as nat,
            level: self.level as nat,
            refill_rate: self.refill_rate as nat,
            last_refill: self.last_refill as nat,
        }
    }
}

impl Bucket {
    /// A full bucket, as a new client gets it.
    pub fn new(capacity: u32, refill_rate: u32, now: u64) -> (bucket: Bucket)
        requires
            capacity > 0,
            refill_rate > 0,
        ensures
            bucket@ == BucketState::full(capacity as nat, refill_rate as nat, now as nat),
            bucket@.wf(),
            bucket@.limited(),
    {
        assert(capacity * TOKEN <= u64::MAX) by (nonlinear_arith)
            requires
                capacity <= u32::MAX,
                TOKEN == 1000,
        ;
        Bucket { capacity, level: capacity as u64 * TOKEN, refill_rate, last_refill: now }
    }

    /// The most whole tokens the bucket holds.
    pub fn capacity(&self) -> (capacity: u32)
        ensures
            capacity == self@.capacity,
    {
        self.capacity
    }

    /// Tokens gained per second.
    pub fn refill_rate(&self) -> (rate: u32)
        ensures
            rate == self@.refill_rate,
    {
        self.refill_rate
    }

    /// The millisecond of the last refill.
    pub fn last_refill(&self) -> (at: u64)
        ensures
            at == self@.last_refill,
    {
        self.last_refill
    }

    /// The level in thousandths of a token.
    pub fn level(&self) -> (level: u64)
        ensures
            level == self@.level,
    {
        self.level
    }

    /// The whole tokens in the bucket.
    pub fn tokens(&self) -> (tokens: u64)
        ensures
            tokens == self@.level / (TOKEN as nat),
    {
        self.level / TOKEN
    }

    /// Replaces the limits and cuts the level to the new capacity.
    pub fn retune(&mut self, capacity: u32, refill_rate: u32)
        requires
            capacity > 0,
            refill_rate > 0,
        ensures
            final(self)@ == old(self)@.retuned(capacity as nat, refill_rate as nat),
            final(self)@.wf(),
            final(self)@.limited(),
    {
        assert(capacity * TOKEN <= u64::MAX) by (nonlinear_arith)
            requires
                capacity <= u32::MAX,
                TOKEN == 1000,
        ;
        let top: u64 = capacity as u64 * TOKEN;
        self.capacity = capacity;
        self.refill_rate = refill_rate;
        if self.level >= top {
            self.level = top;
        }
    }

    /// Adds what was gained since the last refill, up to the capacity, and
    /// moves the time of the last refill to `now`.
    pub fn refill(&mut self, now: u64)
        ensures
            final(self)@ == old(self)@.refilled(now as nat),
            final(self)@.wf(),
            final(self)@.limited() == old(self)@.limited(),
    {
        let waited: u64 = if now >= self.last_refill {
            now - self.last_refill
        } else {
            0
        };
        assert(waited * self.refill_rate <= 0xffff_ffff_ffff_ffff * 0xffff_ffff) by (nonlinear_arith)
            requires
                waited <= 0xffff_ffff_ffff_ffff,
                self.refill_rate <= 0xffff_ffff,
        ;
        assert(self.capacity * TOKEN <= u64::MAX) by (nonlinear_arith)
            requires
                self.capacity <= u32::MAX,
                TOKEN == 1000,
        ;
        let gained: u128 = waited as u128 * (self.refill_rate as u128);
        let grown: u128 = self.level as u128 + gained;
        let top: u64 = self.capacity as u64 * TOKEN;
        if grown >= top as u128 {
            self.level = top;
        } else {
            self.level = grown as u64;
        }
        self.last_refill = now;
    }

    /// Takes one token if the bucket holds one.
    pub fn draw(&mut self) -> (d: Decision)
        ensures
            d == old(self)@.verdict(),
            final(self)@ == old(self)@.drawn(),
            old(self)@.wf() ==> final(self)@.wf(),
            final(self)@.limited() == old(self)@.limited(),
    {
        if self.level >= TOKEN {
            self.level = self.level - TOKEN;
            Decision::Allowed
        } else {
            Decision::Exceeded
        }
    }

    /// One request at `now` under the given limits: retune, refill, draw.
    pub fn check(&mut self, now: u64, capacity: u32, refill_rate: u32) -> (d: Decision)
        requires
            capacity > 0,
            refill_rate > 0,
        ensures
            d == decision(Some(old(self)@), now as nat, capacity as nat, refill_rate as nat),
            final(self)@ == after_check(Some(old(self)@), now as nat, capacity as nat, refill_rate as nat),
            final(self)@.wf(),
            final(self)@.limited(),
    {
        self.retune(capacity, refill_rate);
        self.refill(now);
        self.draw()
    }
}

/// Whatever is done to a bucket, its level stays between nothing and its
/// capacity: when it is created, retuned, refilled, drawn from, and after a
/// whole request.
pub proof fn lemma_level_within_capacity(
    bucket: BucketState,
    prev: Option<BucketState>,
    now: nat,
    capacity: nat,
    refill_rate: nat,
)
    ensures
        BucketState::full(capacity, refill_rate, now).wf(),
        bucket.retuned(capacity, refill_rate).wf(),
        bucket.refilled(now).wf(),
        bucket.wf() ==> bucket.drawn().wf(),
        ready(prev, now, capacity, refill_rate).wf(),
        after_check(prev, now, capacity, refill_rate).wf(),
        0 <= after_check(prev, now, capacity, refill_rate).level <= brim(capacity),
{
}

/// While nothing is drawn, the level that a bucket reaches never falls as time
/// goes on, and never passes the capacity.
pub proof fn lemma_level_grows_with_time(bucket: BucketState, earlier: nat, later: nat)
    requires
        bucket.wf(),
        earlier < later,
    ensures
        bucket.level <= bucket.level_at(earlier) <= bucket.level_at(later) <= brim(bucket.capacity),
{
    assert(elapsed(bucket.last_refill, earlier) * bucket.refill_rate <= elapsed(bucket.last_refill, later)
        * bucket.refill_rate) by (nonlinear_arith)
        requires
            elapsed(bucket.last_refill, earlier) <= elapsed(bucket.last_refill, later),
    ;
}

/// Refilling a bucket at one time and again at a later one, with nothing drawn
/// between, never lowers its level, and never lifts it past the capacity.
pub proof fn lemma_refill_is_monotonic(bucket: BucketState, earlier: nat, later: nat)
    requires
        bucket.wf(),
        earlier < later,
    ensures
        bucket.level <= bucket.refilled(earlier).level,
        bucket.refilled(earlier).level <= bucket.refilled(earlier).refilled(later).level,
        bucket.refilled(earlier).refilled(later).level <= brim(bucket.capacity),
{
}

/// The client's bucket after `count` requests at the one instant `now`.
pub open spec fn after_burst(
    start: Option<BucketState>,
    now: nat,
    capacity: nat,
    refill_rate: nat,
    count: nat,
) -> Option<BucketState>
    decreases count,
{
    if count == 0 {
        start
    } else {
        let before = after_burst(start, now, capacity, refill_rate, (count - 1) as nat);
        Some(after_check(before, now, capacity, refill_rate))
    }
}

/// A burst on a bucket that is full at that instant, as a new client's is:
/// the first `capacity` requests are allowed and the one after them is not.
pub proof fn lemma_burst_admits_capacity(
    start: Option<BucketState>,
    now: nat,
    capacity: nat,
    refill_rate: nat,
    earlier: nat,
)
    requires
        ready(start, now, capacity, refill_rate).level == brim(capacity),
        earlier <= capacity,
    ensures
        ready(after_burst(start, now, capacity, refill_rate, earlier), now, capacity, refill_rate).level == brim(
            capacity,
        ) - earlier * TOKEN,
        earlier < capacity ==> decision(
            after_burst(start, now, capacity, refill_rate, earlier),
            now,
            capacity,
            refill_rate,
        ) == Decision::Allowed,
        earlier == capacity ==> decision(
            after_burst(start, now, capacity, refill_rate, earlier),
            now,
            capacity,
            refill_rate,
        ) == Decision::Exceeded,
    decreases earlier,
{
    if earlier > 0 {
        lemma_burst_admits_capacity(start, now, capacity, refill_rate, (earlier - 1) as nat);
        let before = after_burst(start, now, capacity, refill_rate, (earlier - 1) as nat);
        let left = after_check(before, now, capacity, refill_rate);
        assert(after_burst(start, now, capacity, refill_rate, earlier) == Some(left));
        assert(left.last_refill == now);
        assert(elapsed(now, now) * refill_rate == 0) by (nonlinear_arith)
            requires
                elapsed(now, now) == 0,
        ;
    }
}

/// A new client is met with a full bucket, so the burst bound holds of it.
pub proof fn lemma_new_client_burst(now: nat, capacity: nat, refill_rate: nat, earlier: nat)
    requires
        earlier <= capacity,
    ensures
        earlier < capacity ==> decision(
            after_burst(None, now, capacity, refill_rate, earlier),
            now,
            capacity,
            refill_rate,
        ) == Decision::Allowed,
        earlier == capacity ==> decision(
            after_burst(None, now, capacity, refill_rate, earlier),
            now,
            capacity,
            refill_rate,
        ) == Decision::Exceeded,
{
    lemma_burst_admits_capacity(None, now, capacity, refill_rate, earlier);
}

/// After a refusal, a client that waits for at least the time in which one
/// token is gained (`wait` milliseconds with `wait * refill_rate >= TOKEN`) is
/// allowed again. The capacity is a limit, so at least one.
pub proof fn lemma_recovery_after_wait(
    prev: Option<BucketState>,
    now: nat,
    capacity: nat,
    refill_rate: nat,
    wait: nat,
)
    requires
        capacity >= 1,
        decision(prev, now, capacity, refill_rate) == Decision::Exceeded,
        wait * refill_rate >= TOKEN,
    ensures
        decision(
            Some(after_check(prev, now, capacity, refill_rate)),
            now + wait,
            capacity,
            refill_rate,
        ) == Decision::Allowed,
{
    let left = after_check(prev, now, capacity, refill_rate);
    assert(left.last_refill == now);
    assert(elapsed(now, now + wait) == wait);
}

/// Under any limit, a refused client is allowed again a second later at the latest.
pub proof fn lemma_recovery_within_a_second(
    prev: Option<BucketState>,
    now: nat,
    capacity: nat,
    refill_rate: nat,
    wait: nat,
)
    requires
        capacity >= 1,
        refill_rate >= 1,
        decision(prev, now, capacity, refill_rate) == Decision::Exceeded,
        wait >= TOKEN,
    ensures
        decision(
            Some(after_check(prev, now, capacity, refill_rate)),
            now + wait,
            capacity,
            refill_rate,
        ) == Decision::Allowed,
{
    assert(wait * refill_rate >= wait) by (nonlinear_arith)
        requires
            refill_rate >= 1,
            wait >= 0,
    ;
    lemma_recovery_after_wait(prev, now, capacity, refill_rate, wait);
}

/// A bucket that has refilled to the brim answers as a new one would, and is
/// left as a new one would be: dropping it goes unnoticed.
pub proof fn lemma_full_bucket_is_as_new(bucket: BucketState, now: nat, capacity: nat, refill_rate: nat)
    requires
        bucket.retuned(capacity, refill_rate).level_at(now) == brim(capacity),
    ensures
        decision(Some(bucket), now, capacity, refill_rate) == decision(None, now, capacity, refill_rate),
        after_check(Some(bucket), now, capacity, refill_rate) == after_check(None, now, capacity, refill_rate),
{
}

} // verus!
