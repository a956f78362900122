//! Quota configuration and the time spans derived from it.
use vstd::prelude::*;

verus! {

/// Microseconds in one second.
pub const MICROS_PER_SECOND: u64 = 1_000_000;

/// The largest span, in microseconds, handed to the store. The store computes
/// with double-precision numbers; spans up to this bound, added to timestamps
/// counted from 2017, stay exact integers there.
pub const MAX_SPAN: u64 = 1_000_000_000_000_000;

/// `ceil(a / b)` for `a >= 0` and `b > 0`.
pub open spec fn ceil_div(a: int, b: int) -> int {
    (a + b - 1) / b
}

/// Whether `(rate, burst, period_seconds)` is an acceptable quota.
pub open spec fn valid_limit(rate: int, burst: int, period_seconds: int) -> bool {
    period_seconds > 0 && rate > 0 && rate <= burst
}

/// Rate limit setting: `rate` permits per `period_seconds`, with bursts of up
/// to `burst` permits.
#[derive(Debug, Clone, Copy)]
pub struct Limit {
    rate: usize,
    burst: usize,
    period_seconds: usize,
}

/// Time spans, in microseconds, that the store's algorithm works with for one
/// request.
#[derive(Debug, Clone, Copy, PartialEq, Eq)]
pub struct Spans {
    /// Time needed to regenerate one permit.
    pub emission_interval: u64,
    /// Slack that a full burst may borrow ahead of the steady rate.
    pub burst_offset: u64,
    /// Time charged for this request's cost.
    pub tat_increment: u64,
}

impl Spans {
    /// Spans that the algorithm accepts: a positive emission interval and
    /// every span within `MAX_SPAN`.
    pub open spec fn wf(&self) -> bool {
        &&& 0 < self.emission_interval <= MAX_SPAN
        &&& self.burst_offset <= MAX_SPAN
        &&& self.tat_increment <= MAX_SPAN
    }
}

impl Limit {
    pub closed spec fn rate_spec(&self) -> int {
        self.rate as int
    }

    pub closed spec fn burst_spec(&self) -> int {
        self.burst as int
    }

    pub closed spec fn period_spec(&self) -> int {
        self.period_seconds as int
    }

    /// The invariant every `Limit` holds.
    pub open spec fn wf(&self) -> bool {
        valid_limit(self.rate_spec(), self.burst_spec(), self.period_spec())
    }

    /// Emission interval in microseconds, rounded up to a whole microsecond.
    pub open spec fn emission_interval_spec(&self) -> int {
        ceil_div(self.period_spec() * MICROS_PER_SECOND, self.rate_spec())
    }

    pub open spec fn burst_offset_spec(&self) -> int {
        self.burst_spec() * self.emission_interval_spec()
    }

    pub open spec fn tat_increment_spec(&self, n: int) -> int {
        n * self.emission_interval_spec()
    }

    /// Whether a request of cost `n` under this limit has spans that the
    /// store can represent exactly.
    pub open spec fn spans_fit(&self, n: int) -> bool {
        &&& self.emission_interval_spec() <= MAX_SPAN
        &&& self.burst_offset_spec() <= MAX_SPAN
        &&& self.tat_increment_spec(n) <= MAX_SPAN
    }

    /// The spans of a request of cost `n` under this limit.
    pub open spec fn spans_match(&self, n: int, s: Spans) -> bool {
        &&& s.emission_interval == self.emission_interval_spec()
        &&& s.burst_offset == self.burst_offset_spec()
        &&& s.tat_increment == self.tat_increment_spec(n)
    }

    /// Creates a limit; the arguments must satisfy
    /// `period_seconds > 0`, `rate > 0` and `rate <= burst`.
    pub fn new(rate: usize, burst: usize, period_seconds: usize) -> (r: Self)
        requires
            valid_limit(rate as int, burst as int, period_seconds as int),
        ensures
            r.wf(),
            r.rate_spec() == rate,
            r.burst_spec() == burst,
            r.period_spec() == period_seconds,
    {
        Limit { rate, burst, period_seconds }
    }

    /// Creates a limit, or returns `None` exactly when the arguments violate
    /// `period_seconds > 0`, `rate > 0` or `rate <= burst`.
    pub fn try_new(rate: usize, burst: usize, period_seconds: usize) -> (r: Option<Self>)
        ensures
            r.is_some() == valid_limit(rate as int, burst as int, period_seconds as int),
            r matches Some(l) ==> {
                &&& l.wf()
                &&& l.rate_spec() == rate
                &&& l.burst_spec() == burst
                &&& l.period_spec() == period_seconds
            },
    {
        if period_seconds == 0 || rate == 0 || rate > burst {
            None
        } else {
            Some(Limit::new(rate, burst, period_seconds))
        }
    }

    pub fn rate(&self) -> (r: usize)
        ensures
            r == self.rate_spec(),
    {
        self.rate
    }

    pub fn burst(&self) -> (r: usize)
        ensures
            r == self.burst_spec(),
    {
        self.burst
    }

    pub fn period_seconds(&self) -> (r: usize)
        ensures
            r == self.period_spec(),
    {
        self.period_seconds
    }

    /// The spans of a request of cost `n`, or `None` exactly when one of them
    /// exceeds `MAX_SPAN`.
    pub fn spans(&self, n: usize) -> (r: Option<Spans>)
        requires
            self.wf(),
        ensures
            r.is_some() == self.spans_fit(n as int),
            r matches Some(s) ==> s.wf() && self.spans_match(n as int, s),
    {
        let num: u128 = self.period_seconds as u128 * MICROS_PER_SECOND as u128;
        let rate: u128 = self.rate as u128;
        assert(num + rate - 1 < u128::MAX) by (nonlinear_arith)
            requires
                num == self.period_seconds * 1_000_000,
                self.period_seconds <= usize::MAX,
                rate <= usize::MAX,
        ;
        let ei: u128 = (num + rate - 1) / rate;
        assert(ei == self.emission_interval_spec());
        if ei > MAX_SPAN as u128 {
            return None;
        }
        assert(ei >= 1) by (nonlinear_arith)
            requires
                ei == (num + rate - 1) as int / rate as int,
                num >= 1_000_000,
                rate >= 1,
        ;
        assert(self.burst * ei <= u64::MAX * MAX_SPAN && n * ei <= u64::MAX * MAX_SPAN)
            by (nonlinear_arith)
            requires
                self.burst <= u64::MAX,
                n <= u64::MAX,
                ei <= MAX_SPAN,
        ;
        let bo: u128 = self.burst as u128 * ei;
        let inc: u128 = n as u128 * ei;
        if bo > MAX_SPAN as u128 || inc > MAX_SPAN as u128 {
            return None;
        }
        Some(Spans { emission_interval: ei as u64, burst_offset: bo as u64, tat_increment: inc as u64 })
    }
}

} // verus!
