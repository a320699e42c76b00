//! The counters of the gateway: a fixed set, each only ever counted up.

use vstd::prelude::*;

verus! {

/// The counters, fixed when the gateway starts.
#[derive(Clone, Copy, Debug, PartialEq, Eq, Structural)]
pub enum Counter {
    /// Requests received.
    RequestsTotal,
    /// Requests refused by the rate limiter.
    RateLimited,
    /// Requests whose path no rule matches.
    NotFound,
    /// Requests whose method no matching rule serves.
    MethodNotAllowed,
    /// Requests to a protected route without a bearer credential.
    AuthMissing,
    /// Requests whose credential could not be decoded.
    AuthMalformed,
    /// Requests whose credential was not signed with the shared secret.
    AuthBadSignature,
    /// Requests whose credential had expired.
    AuthExpired,
    /// Requests that the target answered.
    Forwarded,
    /// Requests that were admitted but could not be forwarded.
    ForwardFailed,
}

/// The number of counters.
pub const COUNTERS: usize = 10;

impl Counter {
    /// The place of the counter in a snapshot.
    pub open spec fn index(self) -> int {
        match self {
            Counter::RequestsTotal => 0,
            Counter::RateLimited => 1,
            Counter::NotFound => 2,
            Counter::MethodNotAllowed => 3,
            Counter::AuthMissing => 4,
            Counter::AuthMalformed => 5,
            Counter::AuthBadSignature => 6,
            Counter::AuthExpired => 7,
            Counter::Forwarded => 8,
            Counter::ForwardFailed => 9,
        }
    }

    /// The counter at a place of a snapshot.
    pub open spec fn at(index: int) -> Counter {
        if index == 0 {
            Counter::RequestsTotal
        } else if index == 1 {
            Counter::RateLimited
        } else if index == 2 {
            Counter::NotFound
        } else if index == 3 {
            Counter::MethodNotAllowed
        } else if index == 4 {
            Counter::AuthMissing
        } else if index == 5 {
            Counter::AuthMalformed
        } else if index == 6 {
            Counter::AuthBadSignature
        } else if index == 7 {
            Counter::AuthExpired
        } else if index == 8 {
            Counter::Forwarded
        } else {
            Counter::ForwardFailed
        }
    }

    /// The name under which the counter is exposed.
    pub open spec fn label(self) -> Seq<char> {
        match self {
            Counter::RequestsTotal => "http_requests_total"@,
            Counter::RateLimited => "http_requests_rate_limited_total"@,
            Counter::NotFound => "http_requests_not_found_total"@,
            Counter::MethodNotAllowed => "http_requests_method_not_allowed_total"@,
            Counter::AuthMissing => "http_requests_auth_missing_total"@,
            Counter::AuthMalformed => "http_requests_auth_malformed_total"@,
            Counter::AuthBadSignature => "http_requests_auth_bad_signature_total"@,
            Counter::AuthExpired => "http_requests_auth_expired_total"@,
            Counter::Forwarded => "http_requests_forwarded_total"@,
            Counter::ForwardFailed => "http_requests_forward_failed_total"@,
        }
    }

    /// The place of the counter in a snapshot.
    pub fn position(self) -> (index: usize)
        ensures
            index == self.index(),
            index < COUNTERS,
    {
        match self {
            Counter::RequestsTotal => 0,
            Counter::RateLimited => 1,
            Counter::NotFound => 2,
            Counter::MethodNotAllowed => 3,
            Counter::AuthMissing => 4,
            Counter::AuthMalformed => 5,
            Counter::AuthBadSignature => 6,
            Counter::AuthExpired => 7,
            Counter::Forwarded => 8,
            Counter::ForwardFailed => 9,
        }
    }

    /// The counter at a place of a snapshot.
    pub fn from_position(index: usize) -> (counter: Option<Counter>)
        ensures
            match counter {
                Some(c) => index < COUNTERS && c == Counter::at(index as int) && c.index() == index,
                None => index >= COUNTERS,
            },
    {
        if index == 0 {
            Some(Counter::RequestsTotal)
        } else if index == 1 {
            Some(Counter::RateLimited)
        } else if index == 2 {
            Some(Counter::NotFound)
        } else if index == 3 {
            Some(Counter::MethodNotAllowed)
        } else if index == 4 {
            Some(Counter::AuthMissing)
        } else if index == 5 {
            Some(Counter::AuthMalformed)
        } else if index == 6 {
            Some(Counter::AuthBadSignature)
        } else if index == 7 {
            Some(Counter::AuthExpired)
        } else if index == 8 {
            Some(Counter::Forwarded)
        } else if index == 9 {
            Some(Counter::ForwardFailed)
        } else {
            None
        }
    }

    /// The name under which the counter is exposed.
    pub fn name(self) -> (name: &'static str)
        ensures
            name@ == self.label(),
    {
        match self {
            Counter::RequestsTotal => "http_requests_total",
            Counter::RateLimited => "http_requests_rate_limited_total",
            Counter::NotFound => "http_requests_not_found_total",
            Counter::MethodNotAllowed => "http_requests_method_not_allowed_total",
            Counter::AuthMissing => "http_requests_auth_missing_total",
            Counter::AuthMalformed => "http_requests_auth_malformed_total",
            Counter::AuthBadSignature => "http_requests_auth_bad_signature_total",
            Counter::AuthExpired => "http_requests_auth_expired_total",
            Counter::Forwarded => "http_requests_forwarded_total",
            Counter::ForwardFailed => "http_requests_forward_failed_total",
        }
    }
}

/// A count one higher; the highest count stays as it is.
pub open spec fn bumped(count: u64) -> u64 {
    if count < u64::MAX {
        (count + 1) as u64
    } else {
        count
    }
}

/// The sum of two counts; the highest count where the sum would pass it.
pub open spec fn summed(left: u64, right: u64) -> u64 {
    if left + right <= u64::MAX {
        (left + right) as u64
    } else {
        u64::MAX
    }
}

/// The counts after `counter` was counted up once.
pub open spec fn counted(counts: Seq<u64>, counter: Counter) -> Seq<u64> {
    counts.update(counter.index(), bumped(counts[counter.index()]))
}

/// The counters of one gateway.
#[derive(Clone, Debug)]
pub struct Metrics {
    counts: Vec<u64>,
}

impl View for Metrics {
    type V = Seq<u64>;

    closed spec fn view(&self) -> Seq<u64> {
        self.counts@
    }
}

impl Metrics {
    /// There is one count for each counter.
    pub open spec fn wf(&self) -> bool {
        self@.len() == COUNTERS
    }

    /// All counters at nothing.
    pub fn new() -> (metrics: Metrics)
        ensures
            metrics.wf(),
            forall|i: int| 0 <= i < COUNTERS ==> metrics@[i] == 0,
    {
        let mut counts: Vec<u64> = Vec::new();
        let mut i: usize = 0;
        while i < COUNTERS
            invariant
                0 <= i <= COUNTERS,
                counts@.len() == i,
                forall|j: int| 0 <= j < i ==> counts@[j] == 0,
            decreases COUNTERS - i,
        {
            counts.push(0);
            i = i + 1;
        }
        Metrics { counts }
    }

    /// Counters that start from counts taken earlier, one for each counter in
    /// their order; nothing where the list has another length.
    pub fn from_counts(counts: Vec<u64>) -> (metrics: Option<Metrics>)
        ensures
            match metrics {
                Some(m) => counts@.len() == COUNTERS && m.wf() && m@ == counts@,
                None => counts@.len() != COUNTERS,
            },
    {
        if counts.len() == COUNTERS {
            Some(Metrics { counts })
        } else {
            None
        }
    }

    /// Counts `counter` up by one. No counter ever goes down, and one that
    /// has reached the highest number stays there.
    pub fn increment(&mut self, counter: Counter)
        requires
            old(self).wf(),
        ensures
            final(self).wf(),
            final(self)@ == counted(old(self)@, counter),
            forall|i: int| 0 <= i < COUNTERS ==> old(self)@[i] <= final(self)@[i],
    {
        let index: usize = counter.position();
        let count: u64 = self.counts[index];
        if count < u64::MAX {
            self.counts[index] = count + 1;
        }
        assert(self@ =~= counted(old(self)@, counter));
    }

    /// Adds the counts of `other`, counter by counter: the counters of a
    /// gateway that is served by several pipelines are the sums of theirs.
    pub fn merge(&mut self, other: &Metrics)
        requires
            old(self).wf(),
            other.wf(),
        ensures
            final(self).wf(),
            forall|i: int| 0 <= i < COUNTERS ==> final(self)@[i] == summed(old(self)@[i], other@[i]),
    {
        let mut i: usize = 0;
        while i < COUNTERS
            invariant
                0 <= i <= COUNTERS,
                self.wf(),
                other.wf(),
                forall|j: int| 0 <= j < i ==> self@[j] == summed(old(self)@[j], other@[j]),
                forall|j: int| i <= j < COUNTERS ==> self@[j] == old(self)@[j],
            decreases COUNTERS - i,
        {
            let left: u64 = self.counts[i];
            let right: u64 = other.counts[i];
            if left <= u64::MAX - right {
                self.counts[i] = left + right;
            } else {
                self.counts[i] = u64::MAX;
            }
            i = i + 1;
        }
    }

    /// Counts one more request received.
    pub fn inc_requests(&mut self)
        requires
            old(self).wf(),
        ensures
            final(self).wf(),
            final(self)@ == counted(old(self)@, Counter::RequestsTotal),
    {
        self.increment(Counter::RequestsTotal);
    }

    /// The present count of `counter`.
    pub fn get(&self, counter: Counter) -> (count: u64)
        requires
            self.wf(),
        ensures
            count == self@[counter.index()],
    {
        self.counts[counter.position()]
    }

    /// Every counter's name with its present count, in the order of the counters.
    pub fn snapshot(&self) -> (entries: Vec<(String, u64)>)
        requires
            self.wf(),
        ensures
            entries@.len() == COUNTERS,
            forall|i: int|
                0 <= i < COUNTERS ==> (#[trigger] entries@[i]).0@ == Counter::at(i).label() && entries@[i].1
                    == self@[i],
    {
        let mut entries: Vec<(String, u64)> = Vec::new();
        let mut i: usize = 0;
        while i < COUNTERS
            invariant
                self.wf(),
                0 <= i <= COUNTERS,
                entries@.len() == i,
                forall|j: int|
                    0 <= j < i ==> (#[trigger] entries@[j]).0@ == Counter::at(j).label() && entries@[j].1
                        == self@[j],
            decreases COUNTERS - i,
        {
            match Counter::from_position(i) {
                Some(counter) => {
                    entries.push((counter.name().to_owned(), self.counts[i]));
                },
                None => {},
            }
            i = i + 1;
        }
        entries
    }
}

} // verus!
