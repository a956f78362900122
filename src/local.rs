//! Local acceleration: each instance remembers, per store key, until when the
//! key was last known to be limited, and denies requests from that memory
//! alone while it proves them over quota. A reset on any instance broadcasts
//! an invalidation message that makes every instance forget the key.
use vstd::prelude::*;

use crate::gcra::{floor_or_zero, gcra_spans, opt_int, tat_of, LimitResult};
use crate::limit::{Spans, MAX_SPAN};

verus! {

/// The largest expiry instant the local cache holds.
pub const MAX_EXPIRY: u64 = 18_445_744_073_709_551_615;

/// The tag that starts an invalidation message.
pub const RESET_EVENT_TAG: &'static str = "reset:";

pub open spec fn reset_tag() -> Seq<char> {
    seq!['r', 'e', 's', 'e', 't', ':']
}

/// The invalidation message for a store key.
pub open spec fn reset_event_spec(store_key: Seq<char>) -> Seq<char> {
    reset_tag() + store_key
}

/// The store key an invalidation message names; `None` for any message that
/// does not start with the tag.
pub open spec fn parse_reset_event_spec(msg: Seq<char>) -> Option<Seq<char>> {
    if msg.len() >= reset_tag().len() && msg.subrange(0, reset_tag().len() as int) == reset_tag() {
        Some(msg.subrange(reset_tag().len() as int, msg.len() as int))
    } else {
        None
    }
}

/// The denial the local cache gives on its own: only while the cached expiry
/// lies ahead and shows the request's cost over the burst; `None` sends the
/// request to the store.
pub open spec fn local_verdict_spec(cached: Option<int>, now: int, s: Spans) -> Option<
    (bool, int, Option<int>, int),
> {
    match cached {
        Some(e) => {
            let reset_after = e - now;
            let diff = reset_after + s.tat_increment - s.burst_offset;
            if e > now && diff > 0 {
                Some(
                    (
                        true,
                        floor_or_zero(s.burst_offset - reset_after, s.emission_interval as int),
                        Some(diff),
                        reset_after,
                    ),
                )
            } else {
                None
            }
        },
        None => None,
    }
}

/// The denial, if any, that the cached expiry `cached` of a key gives at time
/// `now` for a request with `spans`.
pub fn local_verdict(cached: Option<u64>, now: u64, spans: &Spans) -> (r: Option<LimitResult>)
    requires
        spans.wf(),
        cached matches Some(e) ==> e <= MAX_EXPIRY,
    ensures
        opt_view(r) == local_verdict_spec(opt_int(cached), now as int, *spans),
        r matches Some(v) ==> v.limited && v.retry_after.is_some(),
{
    match cached {
        Some(e) => {
            if e <= now {
                return None;
            }
            let reset_after: u64 = e - now;
            let bo = spans.burst_offset;
            if reset_after + spans.tat_increment <= bo {
                return None;
            }
            let remaining: u64 = if bo >= reset_after {
                (bo - reset_after) / spans.emission_interval
            } else {
                0
            };
            Some(
                LimitResult {
                    limited: true,
                    remaining,
                    retry_after: Some(reset_after + spans.tat_increment - bo),
                    reset_after,
                },
            )
        },
        None => None,
    }
}

pub open spec fn opt_view(r: Option<LimitResult>) -> Option<(bool, int, Option<int>, int)> {
    match r {
        Some(v) => Some(v@),
        None => None,
    }
}

/// The expiry to cache after the store answered at `now` with `reset_after`;
/// `None` where it would pass `MAX_EXPIRY`.
pub fn cache_expiry(now: u64, reset_after: u64) -> (r: Option<u64>)
    ensures
        r.is_some() == (now + reset_after <= MAX_EXPIRY),
        r matches Some(e) ==> e == now + reset_after,
{
    if reset_after > MAX_EXPIRY || now > MAX_EXPIRY - reset_after {
        None
    } else {
        Some(now + reset_after)
    }
}

/// The invalidation message for `store_key`.
pub fn reset_event(store_key: &str) -> (r: String)
    ensures
        r@ == reset_event_spec(store_key@),
{
    proof {
        reveal_strlit("reset:");
    }
    let mut msg = String::new();
    msg.append(RESET_EVENT_TAG);
    msg.append(store_key);
    assert(RESET_EVENT_TAG@ =~= reset_tag());
    msg
}

/// The store key an invalidation message names, or `None` where `msg` does
/// not start with the tag.
pub fn parse_reset_event(msg: &str) -> (r: Option<String>)
    ensures
        opt_seq(r) == parse_reset_event_spec(msg@),
{
    proof {
        reveal_strlit("reset:");
    }
    let tag_len = RESET_EVENT_TAG.unicode_len();
    let len = msg.unicode_len();
    assert(RESET_EVENT_TAG@ =~= reset_tag());
    if len < tag_len {
        return None;
    }
    let mut i: usize = 0;
    while i < tag_len
        invariant
            tag_len == reset_tag().len(),
            RESET_EVENT_TAG@ == reset_tag(),
            tag_len <= len == msg@.len(),
            i <= tag_len,
            forall|j: int| 0 <= j < i ==> msg@[j] == reset_tag()[j],
        decreases tag_len - i,
    {
        if msg.get_char(i) != RESET_EVENT_TAG.get_char(i) {
            assert(msg@.subrange(0, tag_len as int)[i as int] != reset_tag()[i as int]);
            return None;
        }
        i = i + 1;
    }
    assert(msg@.subrange(0, tag_len as int) =~= reset_tag());
    let key = msg.substring_char(tag_len, len);
    Some(key.to_string())
}

pub open spec fn opt_seq(r: Option<String>) -> Option<Seq<char>> {
    match r {
        Some(s) => Some(s@),
        None => None,
    }
}

/// An invalidation message names exactly the key it was made for.
pub proof fn lemma_reset_event_round_trip(store_key: Seq<char>)
    ensures
        parse_reset_event_spec(reset_event_spec(store_key)) == Some(store_key),
{
    let m = reset_event_spec(store_key);
    assert(m.subrange(0, 6) =~= reset_tag());
    assert(m.subrange(6, m.len() as int) =~= store_key);
}

/// What an instance's local cache holds after it receives message `msg`.
pub open spec fn apply_event(cache: Map<Seq<char>, int>, msg: Seq<char>) -> Map<Seq<char>, int> {
    match parse_reset_event_spec(msg) {
        Some(k) => cache.remove(k),
        None => cache,
    }
}

pub open spec fn cached_expiry(cache: Map<Seq<char>, int>, key: Seq<char>) -> Option<int> {
    if cache.contains_key(key) {
        Some(cache[key])
    } else {
        None
    }
}

/// Once an instance has processed the invalidation message of a reset, its
/// local cache no longer denies requests for that key: the next request goes
/// to the store, whatever the cache held before.
pub proof fn lemma_reset_event_clears_local_denial(
    cache: Map<Seq<char>, int>,
    store_key: Seq<char>,
    now: int,
    s: Spans,
)
    ensures
        !apply_event(cache, reset_event_spec(store_key)).contains_key(store_key),
        local_verdict_spec(
            cached_expiry(apply_event(cache, reset_event_spec(store_key)), store_key),
            now,
            s,
        ) is None,
{
    lemma_reset_event_round_trip(store_key);
}

/// The local cache only denies what the store denies too. Say the store
/// answered a request at `t0` on stored state `st0`, and the instance cached
/// `t0 + reset_after`. If at a later `t` the key's state has only consumed
/// quota since (no reset), then whenever the cache denies a request on its
/// own, the store would deny it as well.
pub proof fn lemma_local_denial_conservative(
    st0: Option<int>,
    t0: int,
    s0: Spans,
    st: Option<int>,
    t: int,
    s: Spans,
)
    requires
        s0.wf(),
        s.wf(),
        t0 <= t,
        tat_of(st, t) >= tat_of(gcra_spans(st0, t0, s0).1, t),
        local_verdict_spec(Some(t0 + gcra_spans(st0, t0, s0).0.3), t, s) is Some,
    ensures
        gcra_spans(st, t, s).0.0,
{
}

} // verus!
