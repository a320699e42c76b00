//! The rate limiter: one token bucket per client key, created on the first
//! request of a key and dropped again once it has been idle for long.

use vstd::prelude::*;
use vstd::hash_map::StringHashMap;
use crate::bucket::{after_check, brim, decision, elapsed, lemma_full_bucket_is_as_new, Bucket, BucketState, Decision};

verus! {

/// The bucket of `key`, if the limiter knows the key.
pub open spec fn bucket_of(buckets: Map<Seq<char>, BucketState>, key: Seq<char>) -> Option<BucketState> {
    if buckets.contains_key(key) {
        Some(buckets[key])
    } else {
        None
    }
}

/// Has the bucket not been touched for more than `max_idle` milliseconds at `now`?
pub open spec fn idle(bucket: BucketState, now: nat, max_idle: nat) -> bool {
    bucket.last_refill + max_idle < now
}

/// The buckets that an eviction at `now` keeps.
pub open spec fn kept(buckets: Map<Seq<char>, BucketState>, now: nat, max_idle: nat) -> Map<Seq<char>, BucketState> {
    Map::new(
        |key: Seq<char>| buckets.contains_key(key) && !idle(buckets[key], now, max_idle),
        |key: Seq<char>| buckets[key],
    )
}

/// A bucket that has been idle for longer than it takes to fill is full, so
/// that its owner fares the same from then on whether the bucket is kept or
/// dropped: with `max_idle * refill_rate >= brim(capacity)`, eviction goes
/// unnoticed by requests under the bucket's own limits.
pub proof fn lemma_eviction_goes_unnoticed(bucket: BucketState, now: nat, max_idle: nat, later: nat)
    requires
        idle(bucket, now, max_idle),
        max_idle * bucket.refill_rate >= brim(bucket.capacity),
        later >= now,
    ensures
        bucket.level_at(later) == brim(bucket.capacity),
        decision(Some(bucket), later, bucket.capacity, bucket.refill_rate) == decision(
            None,
            later,
            bucket.capacity,
            bucket.refill_rate,
        ),
        after_check(Some(bucket), later, bucket.capacity, bucket.refill_rate) == after_check(
            None,
            later,
            bucket.capacity,
            bucket.refill_rate,
        ),
{
    let waited = elapsed(bucket.last_refill, later);
    assert(waited >= max_idle);
    assert(waited * bucket.refill_rate >= max_idle * bucket.refill_rate) by (nonlinear_arith)
        requires
            waited >= max_idle,
    ;
    assert(bucket.retuned(bucket.capacity, bucket.refill_rate).level_at(later) == brim(bucket.capacity));
    lemma_full_bucket_is_as_new(bucket, later, bucket.capacity, bucket.refill_rate);
}

/// Token buckets by client key.
pub struct RateLimiter {
    buckets: StringHashMap<Bucket>,
    keys: Vec<String>,
}

impl View for RateLimiter {
    type V = Map<Seq<char>, BucketState>;

    closed spec fn view(&self) -> Map<Seq<char>, BucketState> {
        self.buckets@.map_values(|b: Bucket| b@)
    }
}

/// The keys as sequences of characters.
spec fn names(keys: Seq<String>) -> Seq<Seq<char>> {
    keys.map_values(|key: String| key@)
}

/// Of the buckets `all`, those that an eviction keeps among the first `upto` of `order`.
spec fn kept_among(
    all: Map<Seq<char>, Bucket>,
    order: Seq<Seq<char>>,
    upto: int,
    now: nat,
    max_idle: nat,
) -> Map<Seq<char>, Bucket> {
    Map::new(
        |key: Seq<char>| order.take(upto).contains(key) && !idle(all[key]@, now, max_idle),
        |key: Seq<char>| all[key],
    )
}

impl RateLimiter {
    /// The list of keys names each known client once, and every bucket is
    /// within its capacity and under positive limits.
    pub closed spec fn wf(&self) -> bool {
        &&& names(self.keys@).no_duplicates()
        &&& self.buckets@.dom() == names(self.keys@).to_set()
        &&& forall|key: Seq<char>| #[trigger]
            self.buckets@.contains_key(key) ==> self.buckets@[key]@.wf() && self.buckets@[key]@.limited()
    }

    /// A limiter that knows no client.
    pub fn new() -> (limiter: RateLimiter)
        ensures
            limiter.wf(),
            limiter@ == Map::<Seq<char>, BucketState>::empty(),
    {
        let limiter = RateLimiter { buckets: StringHashMap::new(), keys: Vec::new() };
        assert(limiter@ =~= Map::<Seq<char>, BucketState>::empty());
        assert(limiter.buckets@.dom() =~= names(limiter.keys@).to_set());
        limiter
    }

    /// Every bucket of a well-formed limiter is within its capacity, and
    /// its limits are positive.
    pub proof fn lemma_buckets_within_capacity(&self, key: Seq<char>)
        requires
            self.wf(),
            self@.contains_key(key),
        ensures
            self@[key].wf(),
            self@[key].limited(),
    {
    }

    /// One request of `key` at millisecond `now`, under a limit of `capacity`
    /// tokens refilled at `refill_rate` tokens per second, both positive.
    pub fn check(&mut self, key: &str, now: u64, capacity: u32, refill_rate: u32) -> (d: Decision)
        requires
            old(self).wf(),
            capacity > 0,
            refill_rate > 0,
        ensures
            final(self).wf(),
            d == decision(bucket_of(old(self)@, key@), now as nat, capacity as nat, refill_rate as nat),
            final(self)@ == old(self)@.insert(
                key@,
                after_check(bucket_of(old(self)@, key@), now as nat, capacity as nat, refill_rate as nat),
            ),
    {
        let ghost before = *self;
        let mut known: bool = false;
        let mut bucket = Bucket::new(capacity, refill_rate, now);
        let d = match self.buckets.get(key) {
            Some(found) => {
                known = true;
                bucket = *found;
                bucket.check(now, capacity, refill_rate)
            },
            None => bucket.draw(),
        };
        self.buckets.insert(key.to_owned(), bucket);
        if !known {
            self.keys.push(key.to_owned());
            proof {
                let earlier = names(before.keys@);
                assert(names(self.keys@) =~= earlier.push(key@));
                earlier.lemma_push_to_set_commute(key@);
                assert(!earlier.contains(key@));
            }
        }
        proof {
            assert(self@ =~= before@.insert(
                key@,
                after_check(bucket_of(before@, key@), now as nat, capacity as nat, refill_rate as nat),
            ));
            assert(self.buckets@.dom() =~= names(self.keys@).to_set());
        }
        d
    }

    /// The number of clients with a bucket.
    pub fn len(&self) -> (n: usize)
        ensures
            n == self@.len(),
    {
        proof {
            assert(self@.dom() =~= self.buckets@.dom());
        }
        self.buckets.len()
    }

    /// The bucket of `key`, if the limiter knows the key.
    pub fn bucket(&self, key: &str) -> (found: Option<Bucket>)
        ensures
            match found {
                Some(b) => bucket_of(self@, key@) == Some(b@),
                None => bucket_of(self@, key@) is None,
            },
    {
        match self.buckets.get(key) {
            Some(b) => Some(*b),
            None => None,
        }
    }

    /// Drops every bucket that has not been touched for more than `max_idle`
    /// milliseconds at `now`, and says how many it dropped.
    pub fn evict_idle(&mut self, now: u64, max_idle: u64) -> (dropped: usize)
        requires
            old(self).wf(),
        ensures
            final(self).wf(),
            final(self)@ == kept(old(self)@, now as nat, max_idle as nat),
            dropped == old(self)@.len() - final(self)@.len(),
    {
        let ghost before = *self;
        let ghost order = names(self.keys@);
        let mut fresh: StringHashMap<Bucket> = StringHashMap::new();
        let mut staying: Vec<String> = Vec::new();
        let mut dropped: usize = 0;
        let total: usize = self.keys.len();
        let mut i: usize = 0;
        proof {
            assert(fresh@ =~= kept_among(before.buckets@, order, 0, now as nat, max_idle as nat));
            assert(fresh@.dom() =~= names(staying@).to_set());
        }
        while i < total
            invariant
                before.wf(),
                *self == before,
                order == names(before.keys@),
                total == order.len(),
                0 <= i <= total,
                dropped + staying@.len() == i,
                fresh@ == kept_among(before.buckets@, order, i as int, now as nat, max_idle as nat),
                names(staying@).no_duplicates(),
                fresh@.dom() == names(staying@).to_set(),
            decreases total - i,
        {
            let ghost name = order[i as int];
            let ghost sofar = fresh@;
            let ghost listed = names(staying@);
            proof {
                assert(order.to_set().contains(name));
                assert(self.buckets@.contains_key(name));
                assert(order.take(i + 1) =~= order.take(i as int).push(name));
                assert(!order.take(i as int).contains(name));
                assert(!sofar.dom().contains(name));
                assert(!listed.contains(name));
                assert forall|key: Seq<char>|
                    order.take(i + 1).contains(key) <==> key == name || order.take(i as int).contains(key) by {
                    vstd::seq_lib::lemma_seq_contains_after_push(order.take(i as int), name, key);
                }
            }
            match self.buckets.get(self.keys[i].as_str()) {
                Some(found) => {
                    if now >= found.last_refill() && now - found.last_refill() > max_idle {
                        dropped = dropped + 1;
                    } else {
                        fresh.insert(self.keys[i].clone(), *found);
                        staying.push(self.keys[i].clone());
                        proof {
                            assert(names(staying@) =~= listed.push(name));
                            listed.lemma_push_to_set_commute(name);
                        }
                    }
                },
                None => {},
            }
            proof {
                assert(fresh@ =~= kept_among(before.buckets@, order, i + 1, now as nat, max_idle as nat));
                assert(fresh@.dom() =~= names(staying@).to_set());
            }
            i = i + 1;
        }
        proof {
            assert(order.take(total as int) =~= order);
            assert(before@.dom() =~= order.to_set());
            order.unique_seq_to_set();
            names(staying@).unique_seq_to_set();
        }
        self.buckets = fresh;
        self.keys = staying;
        proof {
            assert(self@ =~= kept(before@, now as nat, max_idle as nat));
            assert(self@.dom() =~= self.buckets@.dom());
        }
        dropped
    }
}

} // verus!
