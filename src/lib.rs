//! A distributed rate limiter built on the generic cell rate algorithm (GCRA).
//!
//! The verified library holds the limiting protocol: the quota configuration,
//! the algorithm the shared store runs for each request, the decoding of its
//! reply, the local acceleration cache's denial rule, and the invalidation
//! messages that keep instances' caches coherent. Time is counted in whole
//! microseconds throughout.
use vstd::prelude::*;

pub mod limit;
pub mod gcra;
pub mod local;
pub mod cache;
pub mod limiter;

pub use cache::LocalCache;
pub use gcra::{decode_reply, gcra_step, LimitError, LimitResult};
pub use limit::{Limit, Spans};
pub use limiter::{AllowPlan, Limiter};
pub use local::{cache_expiry, local_verdict, parse_reset_event, reset_event};
