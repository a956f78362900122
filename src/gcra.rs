//! The generic cell rate algorithm that the shared store runs atomically for
//! each request, and the decoding of the store's reply.
use vstd::prelude::*;

use crate::limit::{Limit, Spans, MAX_SPAN};

verus! {

/// The largest timestamp, in microseconds, that `gcra_step` accepts as `now`.
pub const MAX_INSTANT: u64 = 4_000_000_000_000_000_000;

/// Outcome of one limit check.
#[derive(Debug, Clone, PartialEq, Eq)]
pub struct LimitResult {
    /// Whether the request was denied.
    pub limited: bool,
    /// Permits available at the time of the check.
    pub remaining: u64,
    /// Microseconds until the request could succeed; present exactly when
    /// the request was denied.
    pub retry_after: Option<u64>,
    /// Microseconds until the key's quota is fully restored.
    pub reset_after: u64,
}

/// Errors of the limiting protocol itself; failures to reach the store are
/// reported by the code that talks to it.
#[derive(Debug, Clone, Copy, PartialEq, Eq, Structural)]
pub enum LimitError {
    /// The store answered with values that no run of the algorithm produces.
    InvalidReply,
    /// The limit and cost give spans beyond what the store represents exactly.
    OutOfRange,
}

pub open spec fn opt_int(o: Option<u64>) -> Option<int> {
    match o {
        Some(v) => Some(v as int),
        None => None,
    }
}

impl View for LimitResult {
    type V = (bool, int, Option<int>, int);

    open spec fn view(&self) -> Self::V {
        (self.limited, self.remaining as int, opt_int(self.retry_after), self.reset_after as int)
    }
}

/// The theoretical arrival time the algorithm advances from: the stored one,
/// but never earlier than `now`.
pub open spec fn tat_of(stored: Option<int>, now: int) -> int {
    match stored {
        Some(t) => if t > now {
            t
        } else {
            now
        },
        None => now,
    }
}

/// `floor(a / b)` for `b > 0`, and 0 where `a` is negative.
pub open spec fn floor_or_zero(a: int, b: int) -> int {
    if a < 0 {
        0
    } else {
        a / b
    }
}

/// The stored arrival time, or `now` for a key with none.
pub open spec fn stored_or(stored: Option<int>, now: int) -> int {
    match stored {
        Some(t) => t,
        None => now,
    }
}

/// One run of the algorithm on the stored arrival time of a key: the view of
/// the result, and what the key holds afterwards. A denied request counts its
/// remaining permits from the stored arrival time as it is, and reports a
/// reset span of `max(0, tat - now)`.
pub open spec fn gcra(stored: Option<int>, now: int, ei: int, bo: int, inc: int) -> (
    (bool, int, Option<int>, int),
    Option<int>,
) {
    let tat = stored_or(stored, now);
    let new_tat = tat_of(stored, now) + inc;
    let allow_at = new_tat - bo;
    if allow_at > now {
        (
            (
                true,
                floor_or_zero(now - tat + bo, ei),
                Some(allow_at - now),
                tat_of(stored, now) - now,
            ),
            stored,
        )
    } else {
        ((false, (now - allow_at) / ei, None, new_tat - now), Some(new_tat))
    }
}

pub open spec fn gcra_spans(stored: Option<int>, now: int, s: Spans) -> (
    (bool, int, Option<int>, int),
    Option<int>,
) {
    gcra(stored, now, s.emission_interval as int, s.burst_offset as int, s.tat_increment as int)
}

/// Runs the algorithm on the key's stored arrival time `stored` at time `now`
/// and returns the result with the value the key holds afterwards (`stored`
/// itself when the request is denied).
pub fn gcra_step(stored: Option<u64>, now: u64, spans: &Spans) -> (r: (LimitResult, Option<u64>))
    requires
        spans.wf(),
        now <= MAX_INSTANT,
        stored matches Some(t) ==> t <= MAX_INSTANT + MAX_SPAN,
    ensures
        r.0@ == gcra_spans(opt_int(stored), now as int, *spans).0,
        opt_int(r.1) == gcra_spans(opt_int(stored), now as int, *spans).1,
        r.0.retry_after.is_some() == r.0.limited,
        r.1 matches Some(t) ==> t <= MAX_INSTANT + MAX_SPAN,
{
    let ei = spans.emission_interval;
    let bo = spans.burst_offset;
    let tat: u64 = match stored {
        Some(t) => t,
        None => now,
    };
    let start: u64 = if tat > now {
        tat
    } else {
        now
    };
    let new_tat: u64 = start + spans.tat_increment;
    if new_tat > now + bo {
        let remaining: u64 = if now + bo >= tat {
            (now + bo - tat) / ei
        } else {
            0
        };
        let res = LimitResult {
            limited: true,
            remaining,
            retry_after: Some(new_tat - (now + bo)),
            reset_after: start - now,
        };
        (res, stored)
    } else {
        let res = LimitResult {
            limited: false,
            remaining: (now + bo - new_tat) / ei,
            retry_after: None,
            reset_after: new_tat - now,
        };
        (res, Some(new_tat))
    }
}

/// Whether the four integers the store's script returns form a reply that
/// the algorithm can give: a flag of 0 or 1, no negative count or span
/// beyond the `retry_after` marker, which is negative exactly when the
/// request was allowed.
pub open spec fn reply_ok(limited: int, remaining: int, retry_after: int, reset_after: int) -> bool {
    &&& limited == 0 || limited == 1
    &&& 0 <= remaining
    &&& 0 <= reset_after
    &&& (retry_after >= 0) == (limited == 1)
}

/// The result that a well-formed reply stands for.
pub open spec fn reply_view(limited: int, remaining: int, retry_after: int, reset_after: int) -> (
    bool,
    int,
    Option<int>,
    int,
) {
    (
        limited == 1,
        remaining,
        if retry_after < 0 {
            None
        } else {
            Some(retry_after)
        },
        reset_after,
    )
}

/// Decodes the store's reply `(limited, remaining, retry_after, reset_after)`,
/// where a negative `retry_after` marks an allowed request.
pub fn decode_reply(limited: i64, remaining: i64, retry_after: i64, reset_after: i64) -> (r: Result<
    LimitResult,
    LimitError,
>)
    ensures
        r.is_ok() == reply_ok(limited as int, remaining as int, retry_after as int, reset_after as int),
        r matches Ok(v) ==> v@ == reply_view(
            limited as int,
            remaining as int,
            retry_after as int,
            reset_after as int,
        ) && v.retry_after.is_some() == v.limited,
        r matches Err(e) ==> e == LimitError::InvalidReply,
{
    if limited != 0 && limited != 1 {
        return Err(LimitError::InvalidReply);
    }
    if remaining < 0 {
        return Err(LimitError::InvalidReply);
    }
    if reset_after < 0 || (retry_after >= 0) != (limited == 1) {
        return Err(LimitError::InvalidReply);
    }
    let retry = if retry_after < 0 {
        None
    } else {
        Some(retry_after as u64)
    };
    Ok(
        LimitResult {
            limited: limited == 1,
            remaining: remaining as u64,
            retry_after: retry,
            reset_after: reset_after as u64,
        },
    )
}

/// Spec of `gcra` with the spans of a request of cost `n` under `l`.
pub open spec fn gcra_limit(stored: Option<int>, now: int, l: Limit, n: int) -> (
    (bool, int, Option<int>, int),
    Option<int>,
) {
    gcra(stored, now, l.emission_interval_spec(), l.burst_offset_spec(), l.tat_increment_spec(n))
}

proof fn lemma_emission_interval_positive(l: Limit)
    requires
        l.wf(),
    ensures
        l.emission_interval_spec() >= 1,
{
    let a = l.period_spec() * 1_000_000;
    let b = l.rate_spec();
    assert(a >= 1_000_000) by (nonlinear_arith)
        requires
            a == l.period_spec() * 1_000_000,
            l.period_spec() >= 1,
    ;
    assert((a + b - 1) / b >= 1) by (nonlinear_arith)
        requires
            a >= 1,
            b >= 1,
    ;
}

/// A key with no stored state (never used, expired, or reset) allows any
/// request whose cost is at most the burst: after a reset, a full burst goes
/// through.
pub proof fn lemma_fresh_key_allows(l: Limit, now: int, n: int)
    requires
        l.wf(),
        0 <= n <= l.burst_spec(),
    ensures
        !gcra_limit(None, now, l, n).0.0,
{
    lemma_emission_interval_positive(l);
    let ei = l.emission_interval_spec();
    assert(n * ei <= l.burst_spec() * ei) by (nonlinear_arith)
        requires
            n <= l.burst_spec(),
            ei >= 0,
    ;
}

/// A run of the algorithm never moves a key's arrival time backwards, as
/// seen from any instant: requests only consume quota.
pub proof fn lemma_state_monotone(
    stored: Option<int>,
    now: int,
    ei: int,
    bo: int,
    inc: int,
    at: int,
)
    requires
        inc >= 0,
    ensures
        tat_of(gcra(stored, now, ei, bo, inc).1, at) >= tat_of(stored, at),
{
}

/// Requests of cost 1 run by the store one after another, at the store times
/// `times`, starting from `stored`: how many were allowed, and the state
/// afterwards.
pub open spec fn unit_calls(stored: Option<int>, times: Seq<int>, l: Limit) -> (nat, Option<int>)
    decreases times.len(),
{
    if times.len() == 0 {
        (0, stored)
    } else {
        let (allowed, st) = unit_calls(stored, times.drop_last(), l);
        let (res, next) = gcra_limit(st, times.last(), l, 1);
        (
            if res.0 {
                allowed
            } else {
                allowed + 1
            },
            next,
        )
    }
}

pub open spec fn min_nat(a: nat, b: nat) -> nat {
    if a < b {
        a
    } else {
        b
    }
}

/// Store times that lie within one emission interval after the first.
pub open spec fn within_one_interval(times: Seq<int>, l: Limit) -> bool {
    forall|i: int|
        0 <= i < times.len() ==> times[0] <= #[trigger] times[i] < times[0]
            + l.emission_interval_spec()
}

proof fn lemma_unit_calls_state(times: Seq<int>, l: Limit)
    requires
        l.wf(),
        within_one_interval(times, l),
    ensures
        ({
            let m = min_nat(times.len(), l.burst_spec() as nat);
            &&& unit_calls(None, times, l).0 == m
            &&& unit_calls(None, times, l).1 == if m == 0 {
                None
            } else {
                Some(times[0] + m * l.emission_interval_spec())
            }
        }),
    decreases times.len(),
{
    lemma_emission_interval_positive(l);
    if times.len() > 0 {
        let p = times.drop_last();
        assert(within_one_interval(p, l)) by {
            assert forall|i: int| 0 <= i < p.len() implies p[0] <= #[trigger] p[i] < p[0]
                + l.emission_interval_spec() by {
                assert(p[i] == times[i] && p[0] == times[0]);
            }
        }
        lemma_unit_calls_state(p, l);
        let ei = l.emission_interval_spec();
        let b = l.burst_spec();
        let m = min_nat(p.len(), b as nat);
        let t0 = times[0];
        let tk = times.last();
        assert(t0 <= tk < t0 + ei);
        assert(m * ei >= 0 && (m > 0 ==> m * ei >= ei)) by (nonlinear_arith)
            requires
                ei >= 1,
        ;
        assert((m + 1) * ei - b * ei == (m + 1 - b) * ei) by (nonlinear_arith);
        assert((m + 1) * ei == m * ei + ei) by (nonlinear_arith);
        assert(m + 1 - b <= 0 ==> (m + 1 - b) * ei <= 0) by (nonlinear_arith)
            requires
                ei >= 1,
        ;
        if m > 0 {
            assert(p[0] == t0);
        }
    }
}

/// Requests of cost 1 against a fresh key, however they interleave, are
/// serialised by the store's atomic run of the algorithm. When the store
/// runs them all within one emission interval of the first, exactly
/// `min(count, burst)` are allowed and the other `max(0, count - burst)`
/// denied.
pub proof fn lemma_concurrent_unit_calls(l: Limit, times: Seq<int>)
    requires
        l.wf(),
        within_one_interval(times, l),
    ensures
        unit_calls(None, times, l).0 == min_nat(times.len(), l.burst_spec() as nat),
        times.len() - unit_calls(None, times, l).0 == if times.len() > l.burst_spec() {
            times.len() - l.burst_spec()
        } else {
            0
        },
{
    lemma_unit_calls_state(times, l);
}

} // verus!
