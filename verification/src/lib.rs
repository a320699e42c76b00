//! Request admission for an API gateway: route resolution, bearer-token
//! authentication, per-client rate limiting, counters, and the pipeline that
//! puts them in order and stops at the first refusal.
//!
//! The library decides whether and where a request is forwarded; listening,
//! forwarding and the rendering of the counters are the caller's. It keeps no
//! clock: every operation that depends on time takes the time as an argument,
//! in milliseconds for the rate limiter and the pipeline and in seconds for
//! the expiry of credentials. A rate limit is a positive number of requests
//! per second, and a pipeline is built from such limits only.
//!
//! Its state is changed through `&mut` alone. A caller that serves requests
//! concurrently keeps a pipeline behind a lock; so that clients do not wait
//! for each other it may deal them out among several pipelines by their key,
//! all requests of one client to the same pipeline, and add up the counters.

pub mod auth;
pub mod bucket;
pub mod limiter;
pub mod metrics;
pub mod pipeline;
pub mod routes;
pub mod security;
pub mod text;
