//! The route table: an ordered list of rules, resolved by the first rule
//! whose path pattern and method set both match.

use vstd::prelude::*;
use crate::text::{begins_with, same_text};

verus! {

/// A JSON document, carried as it came: the table only asks whether a rule has one.
#[verifier::external_type_specification]
#[verifier::external_body]
pub struct ExJsonValue(serde_json::Value);

/// One route rule of the configuration.
#[derive(Clone, Debug)]
pub struct RouteConfig {
    /// The path pattern: the whole path, or its beginning if `prefix` is set.
    pub path: String,
    /// Whether `path` is matched as a prefix.
    pub prefix: bool,
    /// Where matching requests are sent.
    pub target: String,
    /// The methods served; none listed means all.
    pub methods: Vec<String>,
    /// Requests per second allowed on this route, where it has a limit of its own.
    pub rate_limit: Option<u32>,
    /// Whether requests must carry a verified credential.
    pub auth_required: bool,
    /// A schema for request bodies, for whoever validates them.
    pub validation_schema: Option<serde_json::Value>,
}

/// The whole configuration, as loaded once.
#[derive(Clone, Debug)]
pub struct GatewayConfig {
    pub listen_address: String,
    pub jwt_secret: String,
    /// Requests per second allowed where a route sets no limit of its own.
    pub default_rate_limit: u32,
    /// The rules in the order of their declaration.
    pub routes: Vec<RouteConfig>,
}

/// A route rule as plain values.
pub struct RouteRule {
    pub path: Seq<char>,
    pub prefix: bool,
    pub target: Seq<char>,
    pub methods: Seq<Seq<char>>,
    pub rate_limit: Option<u32>,
    pub auth_required: bool,
    pub has_schema: bool,
}

impl RouteRule {
    /// Does the pattern match the path?
    pub open spec fn matches_path(self, path: Seq<char>) -> bool {
        if self.prefix {
            self.path.is_prefix_of(path)
        } else {
            self.path == path
        }
    }

    /// Is the method served?
    pub open spec fn allows(self, method: Seq<char>) -> bool {
        self.methods.len() == 0 || self.methods.contains(method)
    }

    /// Does the rule match the request?
    pub open spec fn matches(self, method: Seq<char>, path: Seq<char>) -> bool {
        self.matches_path(path) && self.allows(method)
    }

    /// The rate limit in force on this route.
    pub open spec fn limit_or(self, default: u32) -> u32 {
        match self.rate_limit {
            Some(limit) => limit,
            None => default,
        }
    }
}

impl View for RouteConfig {
    type V = RouteRule;

    open spec fn view(&self) -> RouteRule {
        RouteRule {
            path: self.path@,
            prefix: self.prefix,
            target: self.target@,
            methods: self.methods@.map_values(|m: String| m@),
            rate_limit: self.rate_limit,
            auth_required: self.auth_required,
            has_schema: self.validation_schema is Some,
        }
    }
}

/// The rules as plain values, in their order.
pub open spec fn rules_view(routes: Seq<RouteConfig>) -> Seq<RouteRule> {
    routes.map_values(|r: RouteConfig| r@)
}

/// The configuration as plain values.
pub struct ConfigView {
    pub listen_address: Seq<char>,
    pub jwt_secret: Seq<char>,
    pub default_rate_limit: u32,
    pub routes: Seq<RouteRule>,
}

/// Is every rate limit a positive number: the default, and that of each rule
/// that has one?
pub open spec fn limits_positive(rules: Seq<RouteRule>, default: u32) -> bool {
    &&& default > 0
    &&& forall|i: int| 0 <= i < rules.len() ==> (#[trigger] rules[i]).rate_limit != Some(0u32)
}

impl ConfigView {
    /// Every rate limit is a positive number.
    pub open spec fn valid(self) -> bool {
        limits_positive(self.routes, self.default_rate_limit)
    }
}

impl View for GatewayConfig {
    type V = ConfigView;

    open spec fn view(&self) -> ConfigView {
        ConfigView {
            listen_address: self.listen_address@,
            jwt_secret: self.jwt_secret@,
            default_rate_limit: self.default_rate_limit,
            routes: rules_view(self.routes@),
        }
    }
}

/// Why a request has no route.
#[derive(Clone, Copy, Debug, PartialEq, Eq, Structural)]
pub enum RouteError {
    /// No rule has a pattern that matches the path.
    NotFound,
    /// Some rule matches the path, but none of those serves the method.
    MethodNotAllowed,
}

/// Is `index` the first rule that matches the request?
pub open spec fn is_first_match(rules: Seq<RouteRule>, method: Seq<char>, path: Seq<char>, index: int) -> bool {
    &&& 0 <= index < rules.len()
    &&& rules[index].matches(method, path)
    &&& forall|earlier: int| 0 <= earlier < index ==> !(#[trigger] rules[earlier]).matches(method, path)
}

/// Does any rule match the request?
pub open spec fn some_match(rules: Seq<RouteRule>, method: Seq<char>, path: Seq<char>) -> bool {
    exists|i: int| 0 <= i < rules.len() && (#[trigger] rules[i]).matches(method, path)
}

/// Does the pattern of any rule match the path?
pub open spec fn path_known(rules: Seq<RouteRule>, path: Seq<char>) -> bool {
    exists|i: int| 0 <= i < rules.len() && (#[trigger] rules[i]).matches_path(path)
}

/// The rule that serves a request: the first in the order of declaration that
/// matches it. Where none matches, the path decides between the two errors.
pub open spec fn resolution(rules: Seq<RouteRule>, method: Seq<char>, path: Seq<char>) -> Result<int, RouteError> {
    if some_match(rules, method, path) {
        Ok(choose|index: int| is_first_match(rules, method, path, index))
    } else if path_known(rules, path) {
        Err(RouteError::MethodNotAllowed)
    } else {
        Err(RouteError::NotFound)
    }
}

/// The rate limit in force for a request: that of its route, or the default
/// where the route has none or the request has no route.
pub open spec fn effective_limit(rules: Seq<RouteRule>, default: u32, method: Seq<char>, path: Seq<char>) -> u32 {
    match resolution(rules, method, path) {
        Ok(index) => rules[index].limit_or(default),
        Err(_) => default,
    }
}

/// Where every rate limit is positive, so is the one in force for any request.
pub proof fn lemma_effective_limit_is_positive(
    rules: Seq<RouteRule>,
    default: u32,
    method: Seq<char>,
    path: Seq<char>,
)
    requires
        limits_positive(rules, default),
    ensures
        effective_limit(rules, default, method, path) >= 1,
{
    if some_match(rules, method, path) {
        lemma_resolution_is_first_match(rules, method, path);
    }
}

/// Only one rule can be the first to match.
pub proof fn lemma_first_match_is_unique(
    rules: Seq<RouteRule>,
    method: Seq<char>,
    path: Seq<char>,
    index: int,
)
    requires
        is_first_match(rules, method, path, index),
    ensures
        resolution(rules, method, path) == Ok::<int, RouteError>(index),
{
    let chosen = choose|i: int| is_first_match(rules, method, path, i);
    assert(rules[index].matches(method, path));
    if chosen < index {
        assert(rules[chosen].matches(method, path));
    } else if index < chosen {
        assert(rules[index].matches(method, path));
    }
}

/// The rule that serves a request is the first that matches it.
pub proof fn lemma_resolution_is_first_match(rules: Seq<RouteRule>, method: Seq<char>, path: Seq<char>)
    requires
        some_match(rules, method, path),
    ensures
        resolution(rules, method, path) is Ok,
        is_first_match(rules, method, path, resolution(rules, method, path)->Ok_0),
{
    let found = choose|i: int| 0 <= i < rules.len() && (#[trigger] rules[i]).matches(method, path);
    lemma_first_match_before(rules, method, path, found);
}

/// Below any rule that matches there is a first one.
proof fn lemma_first_match_before(rules: Seq<RouteRule>, method: Seq<char>, path: Seq<char>, found: int)
    requires
        0 <= found < rules.len(),
        rules[found].matches(method, path),
    ensures
        exists|first: int| first <= found && is_first_match(rules, method, path, first),
    decreases found,
{
    if exists|earlier: int| 0 <= earlier < found && (#[trigger] rules[earlier]).matches(method, path) {
        let earlier = choose|earlier: int| 0 <= earlier < found && (#[trigger] rules[earlier]).matches(method, path);
        lemma_first_match_before(rules, method, path, earlier);
    } else {
        assert(is_first_match(rules, method, path, found));
    }
}

/// Where the patterns of two rules overlap on a request, it is served by the
/// earlier of the two or by a rule before it, never by the later; and by the
/// earlier itself where nothing before it matches.
pub proof fn lemma_earlier_rule_wins(
    rules: Seq<RouteRule>,
    method: Seq<char>,
    path: Seq<char>,
    earlier: int,
    later: int,
)
    requires
        0 <= earlier < later < rules.len(),
        rules[earlier].matches(method, path),
        rules[later].matches(method, path),
    ensures
        resolution(rules, method, path) is Ok,
        resolution(rules, method, path)->Ok_0 <= earlier,
        resolution(rules, method, path) != Ok::<int, RouteError>(later),
        is_first_match(rules, method, path, earlier) ==> resolution(rules, method, path) == Ok::<int, RouteError>(
            earlier,
        ),
{
    lemma_resolution_is_first_match(rules, method, path);
    if is_first_match(rules, method, path, earlier) {
        lemma_first_match_is_unique(rules, method, path, earlier);
    }
}

/// A method that no rule serves at a path that some rule matches is refused
/// as not allowed, never as not found; and a path is not found exactly when
/// no pattern matches it.
pub proof fn lemma_unserved_method_is_not_allowed(rules: Seq<RouteRule>, method: Seq<char>, path: Seq<char>)
    ensures
        path_known(rules, path) && !some_match(rules, method, path) ==> resolution(rules, method, path) == Err::<
            int,
            RouteError,
        >(RouteError::MethodNotAllowed),
        path_known(rules, path) ==> resolution(rules, method, path) != Err::<int, RouteError>(RouteError::NotFound),
        !path_known(rules, path) <==> resolution(rules, method, path) == Err::<int, RouteError>(
            RouteError::NotFound,
        ),
{
    if some_match(rules, method, path) {
        let i = choose|i: int| 0 <= i < rules.len() && (#[trigger] rules[i]).matches(method, path);
        assert(rules[i].matches_path(path));
    }
}

/// The default rate limit of a configuration that names none.
pub fn default_rate_limit() -> (limit: u32)
    ensures
        limit == 100,
{
    100
}

impl RouteConfig {
    /// Does the pattern match the path?
    pub fn matches_path(&self, path: &str) -> (hit: bool)
        ensures
            hit == self@.matches_path(path@),
    {
        if self.prefix {
            begins_with(path, self.path.as_str())
        } else {
            same_text(self.path.as_str(), path)
        }
    }

    /// Is the method served?
    pub fn allows(&self, method: &str) -> (served: bool)
        ensures
            served == self@.allows(method@),
    {
        let count: usize = self.methods.len();
        if count == 0 {
            return true;
        }
        let mut i: usize = 0;
        while i < count
            invariant
                count == self.methods@.len(),
                0 <= i <= count,
                forall|j: int| 0 <= j < i ==> (#[trigger] self@.methods[j]) != method@,
            decreases count - i,
        {
            if same_text(self.methods[i].as_str(), method) {
                assert(self@.methods[i as int] == method@);
                return true;
            }
            i = i + 1;
        }
        false
    }

    /// Does the rule match the request?
    pub fn matches(&self, method: &str, path: &str) -> (hit: bool)
        ensures
            hit == self@.matches(method@, path@),
    {
        self.matches_path(path) && self.allows(method)
    }

    /// The rate limit in force on this route.
    pub fn limit_or(&self, default: u32) -> (limit: u32)
        ensures
            limit == self@.limit_or(default),
    {
        match self.rate_limit {
            Some(limit) => limit,
            None => default,
        }
    }
}

impl GatewayConfig {
    /// Is every rate limit a positive number?
    pub fn is_valid(&self) -> (valid: bool)
        ensures
            valid == self@.valid(),
    {
        if self.default_rate_limit == 0 {
            return false;
        }
        let count: usize = self.routes.len();
        let mut i: usize = 0;
        while i < count
            invariant
                count == self.routes@.len(),
                0 <= i <= count,
                self.default_rate_limit > 0,
                forall|j: int| 0 <= j < i ==> (#[trigger] self@.routes[j]).rate_limit != Some(0u32),
            decreases count - i,
        {
            match self.routes[i].rate_limit {
                Some(limit) => {
                    if limit == 0 {
                        assert(self@.routes[i as int].rate_limit == Some(0u32));
                        return false;
                    }
                },
                None => {},
            }
            i = i + 1;
        }
        true
    }
}

/// The rules of one configuration, fixed once built.
#[derive(Clone, Debug)]
pub struct RouteTable {
    rules: Vec<RouteConfig>,
}

impl View for RouteTable {
    type V = Seq<RouteRule>;

    closed spec fn view(&self) -> Seq<RouteRule> {
        rules_view(self.rules@)
    }
}

impl RouteTable {
    /// A table of the given rules, in their order.
    pub fn new(routes: Vec<RouteConfig>) -> (table: RouteTable)
        ensures
            table@ == rules_view(routes@),
    {
        RouteTable { rules: routes }
    }

    /// The number of rules.
    pub fn len(&self) -> (count: usize)
        ensures
            count == self@.len(),
    {
        self.rules.len()
    }

    /// The rule at `index`, if there is one.
    pub fn rule(&self, index: usize) -> (found: Option<&RouteConfig>)
        ensures
            match found {
                Some(rule) => index < self@.len() && rule@ == self@[index as int],
                None => index >= self@.len(),
            },
    {
        if index < self.rules.len() {
            Some(&self.rules[index])
        } else {
            None
        }
    }

    /// The index of the rule that serves the request.
    pub fn resolve(&self, method: &str, path: &str) -> (outcome: Result<usize, RouteError>)
        ensures
            match outcome {
                Ok(index) => index < self@.len() && resolution(self@, method@, path@) == Ok::<int, RouteError>(
                    index as int,
                ),
                Err(error) => resolution(self@, method@, path@) == Err::<int, RouteError>(error),
            },
    {
        let count: usize = self.rules.len();
        let mut seen: bool = false;
        let mut i: usize = 0;
        while i < count
            invariant
                count == self@.len(),
                count == self.rules@.len(),
                0 <= i <= count,
                forall|j: int| 0 <= j < i ==> !(#[trigger] self@[j]).matches(method@, path@),
                seen <==> exists|j: int| 0 <= j < i && (#[trigger] self@[j]).matches_path(path@),
            decreases count - i,
        {
            let rule = &self.rules[i];
            assert(rule@ == self@[i as int]);
            if rule.matches_path(path) {
                if rule.allows(method) {
                    proof {
                        assert(is_first_match(self@, method@, path@, i as int));
                        lemma_first_match_is_unique(self@, method@, path@, i as int);
                    }
                    return Ok(i);
                }
                seen = true;
            }
            i = i + 1;
        }
        if seen {
            Err(RouteError::MethodNotAllowed)
        } else {
            Err(RouteError::NotFound)
        }
    }

    /// The rule that serves the request.
    pub fn lookup(&self, method: &str, path: &str) -> (outcome: Result<&RouteConfig, RouteError>)
        ensures
            match outcome {
                Ok(rule) => resolution(self@, method@, path@) is Ok && rule@ == self@[resolution(
                    self@,
                    method@,
                    path@,
                )->Ok_0],
                Err(error) => resolution(self@, method@, path@) == Err::<int, RouteError>(error),
            },
    {
        match self.resolve(method, path) {
            Ok(index) => Ok(&self.rules[index]),
            Err(error) => Err(error),
        }
    }

    /// The rate limit in force for the request.
    pub fn effective_limit(&self, default: u32, method: &str, path: &str) -> (limit: u32)
        ensures
            limit == effective_limit(self@, default, method@, path@),
    {
        match self.lookup(method, path) {
            Ok(rule) => rule.limit_or(default),
            Err(_) => default,
        }
    }
}

} // verus!
