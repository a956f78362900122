//! A limiter instance: key namespacing, and the decisions taken before and
//! after each round trip to the shared store.
use vstd::prelude::*;

use crate::gcra::{decode_reply, opt_int, reply_ok, reply_view, LimitError, LimitResult};
use crate::limit::{Limit, Spans};
use crate::local::{cache_expiry, local_verdict, local_verdict_spec, reset_event, reset_event_spec, MAX_EXPIRY};

verus! {

/// Prefix of the store keys when none is set.
pub const DEFAULT_KEY_PREFIX: &'static str = "redis_rate:";

/// Channel of the invalidation messages when none is set.
pub const DEFAULT_EVENT_CHANNEL: &'static str = "redis_rate_channel";

/// Configuration of one limiter instance.
#[derive(Debug, Clone)]
pub struct Limiter {
    key_prefix: String,
    event_channel: String,
    local_accelerate: bool,
}

/// What to do for a request once the local cache has been consulted.
#[derive(Debug, Clone)]
pub enum AllowPlan {
    /// The local cache denies the request; no store round trip is needed.
    Local(LimitResult),
    /// Run the algorithm at the store with these spans.
    Query(Spans),
}

impl Limiter {
    pub closed spec fn prefix_spec(&self) -> Seq<char> {
        self.key_prefix@
    }

    pub closed spec fn channel_spec(&self) -> Seq<char> {
        self.event_channel@
    }

    pub closed spec fn accelerate_spec(&self) -> bool {
        self.local_accelerate
    }

    /// A limiter with the default key prefix and event channel, with local
    /// acceleration on or off.
    pub fn new(local_accelerate: bool) -> (r: Self)
        ensures
            r.prefix_spec() == DEFAULT_KEY_PREFIX@,
            r.channel_spec() == DEFAULT_EVENT_CHANNEL@,
            r.accelerate_spec() == local_accelerate,
    {
        Limiter {
            key_prefix: DEFAULT_KEY_PREFIX.to_string(),
            event_channel: DEFAULT_EVENT_CHANNEL.to_string(),
            local_accelerate,
        }
    }

    /// Sets the prefix of the limiter's store keys.
    pub fn set_key_prefix(self, key_prefix: &str) -> (r: Self)
        ensures
            r.prefix_spec() == key_prefix@,
            r.channel_spec() == self.channel_spec(),
            r.accelerate_spec() == self.accelerate_spec(),
    {
        Limiter { key_prefix: key_prefix.to_string(), ..self }
    }

    /// Sets the channel of the invalidation messages.
    pub fn set_event_channel(self, channel: &str) -> (r: Self)
        ensures
            r.channel_spec() == channel@,
            r.prefix_spec() == self.prefix_spec(),
            r.accelerate_spec() == self.accelerate_spec(),
    {
        Limiter { event_channel: channel.to_string(), ..self }
    }

    pub fn key_prefix(&self) -> (r: &str)
        ensures
            r@ == self.prefix_spec(),
    {
        self.key_prefix.as_str()
    }

    pub fn event_channel(&self) -> (r: &str)
        ensures
            r@ == self.channel_spec(),
    {
        self.event_channel.as_str()
    }

    pub fn local_accelerate(&self) -> (r: bool)
        ensures
            r == self.accelerate_spec(),
    {
        self.local_accelerate
    }

    /// The store key of `key`: the prefix followed by the key.
    pub fn store_key(&self, key: &str) -> (r: String)
        ensures
            r@ == self.prefix_spec() + key@,
    {
        let mut k = self.key_prefix.clone();
        k.append(key);
        k
    }

    /// Decides how to serve a request of cost `n` under `limit` at time `now`,
    /// given the expiry the local cache holds for its store key: an error when
    /// the spans are out of range, a local denial when acceleration is on and
    /// the cache proves the request over quota, otherwise a store query.
    pub fn plan_allow(&self, limit: &Limit, n: usize, now: u64, cached: Option<u64>) -> (r: Result<
        AllowPlan,
        LimitError,
    >)
        requires
            limit.wf(),
            cached matches Some(e) ==> e <= MAX_EXPIRY,
        ensures
            r matches Err(e) ==> e == LimitError::OutOfRange,
            r.is_err() == !limit.spans_fit(n as int),
            r matches Ok(AllowPlan::Local(v)) ==> {
                &&& self.accelerate_spec()
                &&& v.retry_after.is_some() && v.limited
                &&& exists|s: Spans|
                    #![auto]
                    limit.spans_match(n as int, s) && local_verdict_spec(opt_int(cached), now as int, s)
                        == Some(v@)
            },
            r matches Ok(AllowPlan::Query(s)) ==> {
                &&& s.wf()
                &&& limit.spans_match(n as int, s)
                &&& self.accelerate_spec() ==> local_verdict_spec(
                    opt_int(cached),
                    now as int,
                    s,
                ) is None
            },
    {
        let spans = match limit.spans(n) {
            Some(s) => s,
            None => return Err(LimitError::OutOfRange),
        };
        if self.local_accelerate {
            if let Some(v) = local_verdict(cached, now, &spans) {
                return Ok(AllowPlan::Local(v));
            }
        }
        Ok(AllowPlan::Query(spans))
    }

    /// Turns the store's reply, received at time `now`, into the request's
    /// result, with the expiry to cache for its key when acceleration is on.
    pub fn finish_allow(
        &self,
        now: u64,
        limited: i64,
        remaining: i64,
        retry_after: i64,
        reset_after: i64,
    ) -> (r: Result<(LimitResult, Option<u64>), LimitError>)
        ensures
            r.is_ok() == reply_ok(limited as int, remaining as int, retry_after as int, reset_after as int),
            r matches Err(e) ==> e == LimitError::InvalidReply,
            r matches Ok((v, e)) ==> {
                &&& v@ == reply_view(limited as int, remaining as int, retry_after as int, reset_after as int)
                &&& v.retry_after.is_some() == v.limited
                &&& e.is_some() == (self.accelerate_spec() && now + v.reset_after <= MAX_EXPIRY)
                &&& e matches Some(x) ==> x == now + v.reset_after
            },
    {
        let v = decode_reply(limited, remaining, retry_after, reset_after)?;
        let expiry = if self.local_accelerate {
            cache_expiry(now, v.reset_after)
        } else {
            None
        };
        Ok((v, expiry))
    }

    /// The invalidation message to broadcast after resetting `store_key`;
    /// `None` when acceleration is off.
    pub fn reset_message(&self, store_key: &str) -> (r: Option<String>)
        ensures
            r.is_some() == self.accelerate_spec(),
            r matches Some(m) ==> m@ == reset_event_spec(store_key@),
    {
        if self.local_accelerate {
            Some(reset_event(store_key))
        } else {
            None
        }
    }
}

} // verus!
