//! The admission pipeline: the gates in their fixed order, the first refusal
//! ending the chain.
//!
//! A request is marked with the security headers, charged to its client's
//! bucket under the limit of its route, resolved to that route, and, where the
//! route asks for it, authenticated. What is admitted is handed back to the
//! caller to forward; the caller then reports how the forwarding went.

use vstd::prelude::*;
use crate::auth::{hs256_decoding, verified, AuthError, AuthGate, Claims, ClaimsView};
use crate::bucket::{after_check, decision, lemma_recovery_after_wait, BucketState, Decision, TOKEN};
use crate::limiter::{bucket_of, kept, RateLimiter};
use crate::metrics::{counted, Counter, Metrics, COUNTERS};
use crate::routes::{
    effective_limit, lemma_effective_limit_is_positive, lemma_resolution_is_first_match, limits_positive,
    resolution, GatewayConfig, RouteError, RouteRule, RouteTable,
};
use crate::security::{headers_view, security_headers, SecurityHeaders};
use crate::text::begins_with;

verus! {

/// What the pipeline reads of an inbound request.
#[derive(Clone, Debug, PartialEq, Eq)]
pub struct Request {
    pub method: String,
    pub path: String,
    /// The value of the authorization header, if the request has one.
    pub authorization: Option<String>,
    /// The network address of the client, if it is known.
    pub peer_addr: Option<String>,
}

/// A request as plain values.
pub struct RequestView {
    pub method: Seq<char>,
    pub path: Seq<char>,
    pub authorization: Option<Seq<char>>,
    pub peer_addr: Option<Seq<char>>,
}

impl View for Request {
    type V = RequestView;

    open spec fn view(&self) -> RequestView {
        RequestView {
            method: self.method@,
            path: self.path@,
            authorization: match self.authorization {
                Some(value) => Some(value@),
                None => None,
            },
            peer_addr: match self.peer_addr {
                Some(address) => Some(address@),
                None => None,
            },
        }
    }
}

impl Request {
    /// The key under which the client is rate-limited: its network address,
    /// and one key for all clients whose address is not known.
    pub fn client_key(&self) -> (key: &str)
        ensures
            key@ == client_key(self@.peer_addr),
    {
        match &self.peer_addr {
            Some(address) => address.as_str(),
            None => "unknown",
        }
    }
}

/// Why a request was turned away, and at which stage.
#[derive(Clone, Copy, Debug, PartialEq, Eq, Structural)]
pub enum Rejection {
    RateLimited,
    Route(RouteError),
    Auth(AuthError),
}

impl Rejection {
    /// The status of the response that tells the client of the refusal.
    pub open spec fn status_code(self) -> u16 {
        match self {
            Rejection::RateLimited => 429,
            Rejection::Route(RouteError::NotFound) => 404,
            Rejection::Route(RouteError::MethodNotAllowed) => 405,
            Rejection::Auth(_) => 401,
        }
    }

    /// The counter that counts refusals of this kind.
    pub open spec fn tally(self) -> Counter {
        match self {
            Rejection::RateLimited => Counter::RateLimited,
            Rejection::Route(RouteError::NotFound) => Counter::NotFound,
            Rejection::Route(RouteError::MethodNotAllowed) => Counter::MethodNotAllowed,
            Rejection::Auth(AuthError::Missing) => Counter::AuthMissing,
            Rejection::Auth(AuthError::Malformed) => Counter::AuthMalformed,
            Rejection::Auth(AuthError::BadSignature) => Counter::AuthBadSignature,
            Rejection::Auth(AuthError::Expired) => Counter::AuthExpired,
        }
    }

    /// The status of the response that tells the client of the refusal.
    pub fn status(&self) -> (code: u16)
        ensures
            code == self.status_code(),
    {
        match self {
            Rejection::RateLimited => 429,
            Rejection::Route(RouteError::NotFound) => 404,
            Rejection::Route(RouteError::MethodNotAllowed) => 405,
            Rejection::Auth(_) => 401,
        }
    }

    /// The counter that counts refusals of this kind.
    pub fn counter(&self) -> (counter: Counter)
        ensures
            counter == self.tally(),
    {
        match self {
            Rejection::RateLimited => Counter::RateLimited,
            Rejection::Route(RouteError::NotFound) => Counter::NotFound,
            Rejection::Route(RouteError::MethodNotAllowed) => Counter::MethodNotAllowed,
            Rejection::Auth(AuthError::Missing) => Counter::AuthMissing,
            Rejection::Auth(AuthError::Malformed) => Counter::AuthMalformed,
            Rejection::Auth(AuthError::BadSignature) => Counter::AuthBadSignature,
            Rejection::Auth(AuthError::Expired) => Counter::AuthExpired,
        }
    }
}

/// What the gates decide of a request.
#[derive(Clone, Debug, PartialEq, Eq)]
pub enum Verdict {
    /// Forward to `target`, the target of rule `route`; `claims` holds the
    /// identity where the route asked for one.
    Forward { route: usize, target: String, claims: Option<Claims> },
    /// Answer with the refusal.
    Reject(Rejection),
}

/// A verdict as plain values.
pub enum VerdictView {
    Forward { route: int, target: Seq<char>, claims: Option<ClaimsView> },
    Reject(Rejection),
}

impl View for Verdict {
    type V = VerdictView;

    open spec fn view(&self) -> VerdictView {
        match self {
            Verdict::Forward { route, target, claims } => VerdictView::Forward {
                route: *route as int,
                target: target@,
                claims: match claims {
                    Some(identity) => Some(identity@),
                    None => None,
                },
            },
            Verdict::Reject(rejection) => VerdictView::Reject(*rejection),
        }
    }
}

/// The answer of the pipeline: the headers for the response, whatever it will
/// be, and the verdict.
#[derive(Clone, Debug, PartialEq, Eq)]
pub struct Admission {
    pub headers: Vec<(String, String)>,
    pub verdict: Verdict,
}

/// The key under which a client is rate-limited: its network address.
pub open spec fn client_key(peer_addr: Option<Seq<char>>) -> Seq<char> {
    match peer_addr {
        Some(address) => address,
        None => "unknown"@,
    }
}

/// The clock of the pipeline counts milliseconds, credentials expire by the second.
pub open spec fn seconds(now: nat) -> nat {
    now / 1000
}

/// An outcome of the authentication gate as plain values.
pub open spec fn identity_view(identity: Result<Claims, AuthError>) -> Result<ClaimsView, AuthError> {
    match identity {
        Ok(claims) => Ok(claims@),
        Err(error) => Err(error),
    }
}

/// The scheme word and the space that stand before a bearer credential.
pub open spec fn bearer_prefix() -> Seq<char> {
    "Bearer "@
}

/// The credential in the value of an authorization header, if it is a bearer one.
pub open spec fn bearer_of(header: Option<Seq<char>>) -> Option<Seq<char>> {
    match header {
        Some(value) => if bearer_prefix().is_prefix_of(value) {
            Some(value.skip(bearer_prefix().len() as int))
        } else {
            None
        },
        None => None,
    }
}

/// The outcome of authentication for a request, by its authorization header:
/// without a bearer credential it is `Missing`.
pub open spec fn authenticated(header: Option<Seq<char>>, secret: Seq<char>, now: nat) -> Result<
    ClaimsView,
    AuthError,
> {
    match bearer_of(header) {
        Some(credential) => verified(hs256_decoding(credential, secret), now),
        None => Err(AuthError::Missing),
    }
}

/// The verdict, given what each gate found. The gates count in their order:
/// the rate limit before the route, the route before the credential, and the
/// credential only where the route asks for one. A route that the table does
/// not hold is no route.
pub open spec fn settled(
    rules: Seq<RouteRule>,
    charged: Decision,
    served: Result<int, RouteError>,
    identity: Result<ClaimsView, AuthError>,
) -> VerdictView {
    if charged == Decision::Exceeded {
        VerdictView::Reject(Rejection::RateLimited)
    } else {
        match served {
            Err(error) => VerdictView::Reject(Rejection::Route(error)),
            Ok(route) => if !(0 <= route < rules.len()) {
                VerdictView::Reject(Rejection::Route(RouteError::NotFound))
            } else if rules[route].auth_required {
                match identity {
                    Ok(claims) => VerdictView::Forward { route, target: rules[route].target, claims: Some(claims) },
                    Err(error) => VerdictView::Reject(Rejection::Auth(error)),
                }
            } else {
                VerdictView::Forward { route, target: rules[route].target, claims: None }
            },
        }
    }
}

/// The answer of the rate limiter to a request at millisecond `now`: the
/// client's bucket is charged under the limit of the route, which is both its
/// capacity and its refill per second.
pub open spec fn charge(
    rules: Seq<RouteRule>,
    default_limit: u32,
    buckets: Map<Seq<char>, BucketState>,
    request: RequestView,
    now: nat,
) -> Decision {
    let limit = effective_limit(rules, default_limit, request.method, request.path) as nat;
    decision(bucket_of(buckets, client_key(request.peer_addr)), now, limit, limit)
}

/// The buckets after a request: the client's bucket was charged, once.
pub open spec fn buckets_after(
    rules: Seq<RouteRule>,
    default_limit: u32,
    buckets: Map<Seq<char>, BucketState>,
    request: RequestView,
    now: nat,
) -> Map<Seq<char>, BucketState> {
    let limit = effective_limit(rules, default_limit, request.method, request.path) as nat;
    let key = client_key(request.peer_addr);
    buckets.insert(key, after_check(bucket_of(buckets, key), now, limit, limit))
}

/// The verdict on a request at millisecond `now`.
pub open spec fn verdict_of(
    rules: Seq<RouteRule>,
    default_limit: u32,
    secret: Seq<char>,
    buckets: Map<Seq<char>, BucketState>,
    request: RequestView,
    now: nat,
) -> VerdictView {
    settled(
        rules,
        charge(rules, default_limit, buckets, request, now),
        resolution(rules, request.method, request.path),
        authenticated(request.authorization, secret, seconds(now)),
    )
}

/// The counters after a request was received and judged: one more
/// request, and one more refusal of its kind if it was refused. What was
/// admitted is counted when its forwarding is reported.
pub open spec fn counts_after(counts: Seq<u64>, verdict: VerdictView) -> Seq<u64> {
    match verdict {
        VerdictView::Reject(rejection) => counted(counted(counts, Counter::RequestsTotal), rejection.tally()),
        VerdictView::Forward { .. } => counted(counts, Counter::RequestsTotal),
    }
}

/// The counter of a forwarding that ended.
pub open spec fn completion(delivered: bool) -> Counter {
    if delivered {
        Counter::Forwarded
    } else {
        Counter::ForwardFailed
    }
}

/// The first refusal ends the chain: a request over its rate limit is told
/// so whatever its route and its credential, and a request without a route is
/// told so whatever its credential.
pub proof fn lemma_first_refusal_decides(
    rules: Seq<RouteRule>,
    default_limit: u32,
    secret: Seq<char>,
    buckets: Map<Seq<char>, BucketState>,
    request: RequestView,
    now: nat,
)
    ensures
        charge(rules, default_limit, buckets, request, now) == Decision::Exceeded ==> verdict_of(
            rules,
            default_limit,
            secret,
            buckets,
            request,
            now,
        ) == VerdictView::Reject(Rejection::RateLimited),
        charge(rules, default_limit, buckets, request, now) == Decision::Allowed && resolution(
            rules,
            request.method,
            request.path,
        ) is Err ==> verdict_of(rules, default_limit, secret, buckets, request, now) == VerdictView::Reject(
            Rejection::Route(resolution(rules, request.method, request.path)->Err_0),
        ),
{
}

/// A request without a bearer credential that is within its rate limit is
/// forwarded where its route asks for no credential, and refused as
/// `Missing` where its route asks for one.
pub proof fn lemma_credential_is_asked_by_the_route(
    rules: Seq<RouteRule>,
    default_limit: u32,
    secret: Seq<char>,
    buckets: Map<Seq<char>, BucketState>,
    request: RequestView,
    now: nat,
)
    requires
        charge(rules, default_limit, buckets, request, now) == Decision::Allowed,
        resolution(rules, request.method, request.path) is Ok,
        bearer_of(request.authorization) is None,
    ensures
        ({
            let route = resolution(rules, request.method, request.path)->Ok_0;
            let verdict = verdict_of(rules, default_limit, secret, buckets, request, now);
            &&& 0 <= route < rules.len()
            &&& rules[route].auth_required ==> verdict == VerdictView::Reject(Rejection::Auth(AuthError::Missing))
            &&& !rules[route].auth_required ==> verdict == VerdictView::Forward {
                route,
                target: rules[route].target,
                claims: None,
            }
        }),
{
    lemma_resolution_is_first_match(rules, request.method, request.path);
}

/// The credential in the value of an authorization header, if it is a bearer one.
pub fn bearer_token(header: &str) -> (credential: Option<&str>)
    ensures
        match credential {
            Some(text) => bearer_of(Some(header@)) == Some(text@),
            None => bearer_of(Some(header@)) is None,
        },
{
    proof {
        reveal_strlit("Bearer ");
    }
    if begins_with(header, "Bearer ") {
        let end: usize = header.unicode_len();
        Some(header.substring_char(7, end))
    } else {
        None
    }
}

/// A header value as characters.
pub open spec fn header_view(header: Option<&str>) -> Option<Seq<char>> {
    match header {
        Some(value) => Some(value@),
        None => None,
    }
}

/// Authenticates a request by the value of its authorization header, at
/// `now` in seconds since the epoch.
pub fn authenticate(gate: &AuthGate, authorization: Option<&str>, now: u64) -> (outcome: Result<Claims, AuthError>)
    ensures
        identity_view(outcome) == authenticated(header_view(authorization), gate.secret(), now as nat),
{
    match authorization {
        Some(header) => match bearer_token(header) {
            Some(credential) => gate.verify(credential, now),
            None => Err(AuthError::Missing),
        },
        None => Err(AuthError::Missing),
    }
}

/// The verdict, given what each gate found.
pub fn settle(
    table: &RouteTable,
    charged: Decision,
    served: Result<usize, RouteError>,
    identity: Result<Claims, AuthError>,
) -> (verdict: Verdict)
    ensures
        verdict@ == settled(
            table@,
            charged,
            match served {
                Ok(route) => Ok(route as int),
                Err(error) => Err(error),
            },
            identity_view(identity),
        ),
{
    match charged {
        Decision::Exceeded => Verdict::Reject(Rejection::RateLimited),
        Decision::Allowed => match served {
            Err(error) => Verdict::Reject(Rejection::Route(error)),
            Ok(route) => match table.rule(route) {
                None => Verdict::Reject(Rejection::Route(RouteError::NotFound)),
                Some(rule) => {
                    let target = rule.target.clone();
                    if rule.auth_required {
                        match identity {
                            Ok(claims) => Verdict::Forward { route, target, claims: Some(claims) },
                            Err(error) => Verdict::Reject(Rejection::Auth(error)),
                        }
                    } else {
                        Verdict::Forward { route, target, claims: None }
                    }
                },
            },
        },
    }
}

/// The gates of one gateway with the state they keep.
pub struct Pipeline {
    table: RouteTable,
    gate: AuthGate,
    limiter: RateLimiter,
    metrics: Metrics,
    default_rate_limit: u32,
}

impl Pipeline {
    /// The route rules.
    pub closed spec fn rules(&self) -> Seq<RouteRule> {
        self.table@
    }

    /// The shared secret of the authentication gate.
    pub closed spec fn secret(&self) -> Seq<char> {
        self.gate.secret()
    }

    /// The rate limit of routes that set none.
    pub closed spec fn default_limit(&self) -> u32 {
        self.default_rate_limit
    }

    /// The buckets of the rate limiter.
    pub closed spec fn buckets(&self) -> Map<Seq<char>, BucketState> {
        self.limiter@
    }

    /// The counts, in the order of the counters.
    pub closed spec fn counts(&self) -> Seq<u64> {
        self.metrics@
    }

    /// The limiter and the counters are in order, and every rate limit of
    /// the configuration is positive.
    pub closed spec fn wf(&self) -> bool {
        &&& self.limiter.wf()
        &&& self.metrics.wf()
        &&& limits_positive(self.table@, self.default_rate_limit)
    }

    /// Every request to a pipeline is charged under a limit of at least one
    /// request per second: the default limit is positive, and so is that of
    /// each rule that has one.
    pub proof fn lemma_limits_are_positive(&self, method: Seq<char>, path: Seq<char>)
        requires
            self.wf(),
        ensures
            limits_positive(self.rules(), self.default_limit()),
            effective_limit(self.rules(), self.default_limit(), method, path) >= 1,
    {
        lemma_effective_limit_is_positive(self.table@, self.default_rate_limit, method, path);
    }

    /// Every client of a pipeline recovers: a request that was refused for its
    /// rate is allowed when repeated after the time in which its limit yields
    /// one token, and after a second at the latest.
    pub proof fn lemma_refused_client_recovers(
        &self,
        buckets: Map<Seq<char>, BucketState>,
        request: RequestView,
        now: nat,
        wait: nat,
    )
        requires
            self.wf(),
            charge(self.rules(), self.default_limit(), buckets, request, now) == Decision::Exceeded,
            wait * effective_limit(self.rules(), self.default_limit(), request.method, request.path) >= TOKEN
                || wait >= TOKEN,
        ensures
            charge(
                self.rules(),
                self.default_limit(),
                buckets_after(self.rules(), self.default_limit(), buckets, request, now),
                request,
                now + wait,
            ) == Decision::Allowed,
    {
        let limit = effective_limit(self.rules(), self.default_limit(), request.method, request.path) as nat;
        let key = client_key(request.peer_addr);
        self.lemma_limits_are_positive(request.method, request.path);
        assert(wait * limit >= TOKEN) by (nonlinear_arith)
            requires
                limit >= 1,
                wait * limit >= TOKEN || wait >= TOKEN,
        ;
        lemma_recovery_after_wait(bucket_of(buckets, key), now, limit, limit, wait);
    }

    /// Has the configuration of the pipeline stayed what it was in `before`?
    pub open spec fn same_config(&self, before: &Pipeline) -> bool {
        &&& self.rules() == before.rules()
        &&& self.secret() == before.secret()
        &&& self.default_limit() == before.default_limit()
    }

    /// Every bucket of the pipeline is within its capacity, and its limits
    /// are positive.
    pub proof fn lemma_buckets_within_capacity(&self, key: Seq<char>)
        requires
            self.wf(),
            self.buckets().contains_key(key),
        ensures
            self.buckets()[key].wf(),
            self.buckets()[key].limited(),
    {
        self.limiter.lemma_buckets_within_capacity(key);
    }

    /// A pipeline for a configuration whose rate limits are all positive,
    /// with no client known and nothing counted.
    pub fn new(config: GatewayConfig) -> (pipeline: Pipeline)
        requires
            config@.valid(),
        ensures
            pipeline.wf(),
            pipeline.rules() == config@.routes,
            pipeline.secret() == config@.jwt_secret,
            pipeline.default_limit() == config@.default_rate_limit,
            pipeline.buckets() == Map::<Seq<char>, BucketState>::empty(),
            pipeline.counts().len() == COUNTERS,
            forall|i: int| 0 <= i < COUNTERS ==> pipeline.counts()[i] == 0,
    {
        Pipeline {
            gate: AuthGate::new(config.jwt_secret.as_str()),
            table: RouteTable::new(config.routes),
            limiter: RateLimiter::new(),
            metrics: Metrics::new(),
            default_rate_limit: config.default_rate_limit,
        }
    }

    /// A pipeline for the configuration if its rate limits are all positive,
    /// and nothing if one of them is zero.
    pub fn try_new(config: GatewayConfig) -> (made: Option<Pipeline>)
        ensures
            made is Some <==> config@.valid(),
            made matches Some(pipeline) ==> {
                &&& pipeline.wf()
                &&& pipeline.rules() == config@.routes
                &&& pipeline.secret() == config@.jwt_secret
                &&& pipeline.default_limit() == config@.default_rate_limit
                &&& pipeline.buckets() == Map::<Seq<char>, BucketState>::empty()
                &&& pipeline.counts().len() == COUNTERS
                &&& forall|i: int| 0 <= i < COUNTERS ==> pipeline.counts()[i] == 0
            },
    {
        if config.is_valid() {
            Some(Pipeline::new(config))
        } else {
            None
        }
    }

    /// Takes one request through the gates at millisecond `now`.
    ///
    /// Whatever the verdict, the client's bucket is charged exactly once and
    /// the request is counted; a refusal is counted under its kind as well.
    pub fn handle(&mut self, request: &Request, now: u64) -> (admission: Admission)
        requires
            old(self).wf(),
        ensures
            final(self).wf(),
            final(self).same_config(old(self)),
            headers_view(admission.headers@) == security_headers(),
            admission.verdict@ == verdict_of(
                old(self).rules(),
                old(self).default_limit(),
                old(self).secret(),
                old(self).buckets(),
                request@,
                now as nat,
            ),
            final(self).buckets() == buckets_after(
                old(self).rules(),
                old(self).default_limit(),
                old(self).buckets(),
                request@,
                now as nat,
            ),
            final(self).counts() == counts_after(old(self).counts(), admission.verdict@),
    {
        let headers = SecurityHeaders.headers();
        self.metrics.increment(Counter::RequestsTotal);
        let method = request.method.as_str();
        let path = request.path.as_str();
        let served = self.table.resolve(method, path);
        let mut limit: u32 = self.default_rate_limit;
        let mut guarded: bool = false;
        match served {
            Ok(route) => {
                match self.table.rule(route) {
                    Some(rule) => {
                        limit = rule.limit_or(self.default_rate_limit);
                        guarded = rule.auth_required;
                    },
                    None => {},
                }
            },
            Err(_) => {},
        }
        proof {
            lemma_effective_limit_is_positive(self.table@, self.default_rate_limit, method@, path@);
        }
        let charged = self.limiter.check(request.client_key(), now, limit, limit);
        let mut identity: Result<Claims, AuthError> = Err(AuthError::Missing);
        if guarded {
            match charged {
                Decision::Allowed => {
                    identity = match &request.authorization {
                        Some(value) => authenticate(&self.gate, Some(value.as_str()), now / 1000),
                        None => authenticate(&self.gate, None, now / 1000),
                    };
                },
                Decision::Exceeded => {},
            }
        }
        let verdict = settle(&self.table, charged, served, identity);
        match &verdict {
            Verdict::Reject(rejection) => {
                self.metrics.increment(rejection.counter());
            },
            Verdict::Forward { .. } => {},
        }
        Admission { headers, verdict }
    }

    /// Counts the end of a forwarding: delivered, or failed.
    pub fn complete(&mut self, delivered: bool)
        requires
            old(self).wf(),
        ensures
            final(self).wf(),
            final(self).same_config(old(self)),
            final(self).buckets() == old(self).buckets(),
            final(self).counts() == counted(old(self).counts(), completion(delivered)),
    {
        if delivered {
            self.metrics.increment(Counter::Forwarded);
        } else {
            self.metrics.increment(Counter::ForwardFailed);
        }
    }

    /// Drops the buckets of clients not seen for more than `max_idle`
    /// milliseconds at `now`, and says how many it dropped.
    pub fn evict_idle(&mut self, now: u64, max_idle: u64) -> (dropped: usize)
        requires
            old(self).wf(),
        ensures
            final(self).wf(),
            final(self).same_config(old(self)),
            final(self).counts() == old(self).counts(),
            final(self).buckets() == kept(old(self).buckets(), now as nat, max_idle as nat),
            dropped == old(self).buckets().len() - final(self).buckets().len(),
    {
        self.limiter.evict_idle(now, max_idle)
    }

    /// Every counter's name with its present count.
    pub fn snapshot(&self) -> (entries: Vec<(String, u64)>)
        requires
            self.wf(),
        ensures
            entries@.len() == COUNTERS,
            forall|i: int|
                0 <= i < COUNTERS ==> (#[trigger] entries@[i]).0@ == Counter::at(i).label() && entries@[i].1
                    == self.counts()[i],
    {
        self.metrics.snapshot()
    }

    /// The counters.
    pub fn metrics(&self) -> (metrics: &Metrics)
        requires
            self.wf(),
        ensures
            metrics.wf(),
            metrics@ == self.counts(),
    {
        &self.metrics
    }

    /// The present count of `counter`.
    pub fn count(&self, counter: Counter) -> (count: u64)
        requires
            self.wf(),
        ensures
            count == self.counts()[counter.index()],
    {
        self.metrics.get(counter)
    }

    /// The number of clients with a bucket.
    pub fn clients(&self) -> (n: usize)
        ensures
            n == self.buckets().len(),
    {
        self.limiter.len()
    }
}

} // verus!
