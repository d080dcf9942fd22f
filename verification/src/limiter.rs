//! Frame-rate admission control: a frame is accepted only when at least
//! `min_interval_ms` have passed since the last accepted frame, so any
//! window of width `w` accepts at most `w / min_interval_ms + 1` frames.

use vstd::prelude::*;

verus! {

/// Per-connection admission state for text frames.
pub struct RateLimiter {
    pub min_interval_ms: u64,
    pub last_accepted: Option<u64>,
}

impl RateLimiter {
    /// A limiter admitting at most `max_fps` frames per second: the minimum
    /// spacing is a thousand milliseconds divided by the rate, truncated.
    pub fn new(max_fps: u32) -> (l: Self)
        requires
            max_fps > 0,
        ensures
            l.min_interval_ms == 1000 as int / max_fps as int,
            l.last_accepted is None,
    {
        RateLimiter { min_interval_ms: 1000 / (max_fps as u64), last_accepted: None }
    }

    /// Accept or reject a frame arriving at `now_ms`; time must not run
    /// backwards past the last accepted frame. Only an accepted frame
    /// advances the reference point.
    pub fn accept(&mut self, now_ms: u64) -> (ok: bool)
        requires
            old(self).last_accepted matches Some(p) ==> p <= now_ms,
        ensures
            final(self).min_interval_ms == old(self).min_interval_ms,
            ok == (old(self).last_accepted is None || now_ms - old(self).last_accepted.unwrap()
                >= old(self).min_interval_ms),
            ok ==> final(self).last_accepted == Some(now_ms),
            !ok ==> final(self).last_accepted == old(self).last_accepted,
    {
        match self.last_accepted {
            None => {
                self.last_accepted = Some(now_ms);
                true
            },
            Some(p) => {
                if now_ms - p >= self.min_interval_ms {
                    self.last_accepted = Some(now_ms);
                    true
                } else {
                    false
                }
            },
        }
    }
}

/// Consecutive times are at least `d` apart.
pub open spec fn spaced(times: Seq<u64>, d: u64) -> bool {
    forall|j: int| 0 <= j < times.len() - 1 ==> #[trigger] times[j + 1] >= times[j] + d
}

/// In a spaced stream the i-th time lies at least `i * d` past the first.
proof fn lemma_spaced_lower(times: Seq<u64>, d: u64, i: int)
    requires
        spaced(times, d),
        0 <= i < times.len(),
    ensures
        times[i] >= times[0] + i * d,
    decreases i,
{
    if i > 0 {
        lemma_spaced_lower(times, d, i - 1);
        assert(times[(i - 1) + 1] >= times[i - 1] + d);
        assert((i - 1) * d + d == i * d) by (nonlinear_arith);
    }
}

/// The rate-limit bound: a stream of accepted frames spaced at least `d`
/// apart, all within `[lo, hi]`, holds at most `(hi - lo) / d + 1` frames.
pub proof fn lemma_rate_limit_window(times: Seq<u64>, d: u64, lo: u64, hi: u64)
    requires
        d >= 1,
        spaced(times, d),
        forall|i: int| 0 <= i < times.len() ==> lo <= #[trigger] times[i] <= hi,
        lo <= hi,
    ensures
        times.len() <= ((hi - lo) as int) / (d as int) + 1,
{
    if times.len() >= 2 {
        let n = times.len() - 1;
        lemma_spaced_lower(times, d, n as int);
        assert(times[n as int] >= times[0] + n * d);
        assert(n * d <= hi - lo);
        vstd::arithmetic::div_mod::lemma_div_is_ordered(n * d, (hi - lo) as int, d as int);
        vstd::arithmetic::div_mod::lemma_div_by_multiple(n as int, d as int);
        assert((n * d) / (d as int) == n);
    }
}

/// The rate-limit bound against the nominal rate: when the frame period
/// divides a second evenly, a window of width `w` milliseconds accepts at
/// most the ceiling of `w * max_fps / 1000`, plus one, frames. (With a
/// truncated period that does not divide a second evenly — the default
/// fifteen frames per second — the true bound is the window over the
/// truncated period, which exceeds this one on wide windows.)
pub proof fn lemma_rate_limit_ceiling(times: Seq<u64>, max_fps: u32, lo: u64, hi: u64)
    requires
        max_fps > 0,
        1000int % (max_fps as int) == 0,
        spaced(times, 1000u64 / (max_fps as u64)),
        forall|i: int| 0 <= i < times.len() ==> lo <= #[trigger] times[i] <= hi,
        lo <= hi,
    ensures
        times.len() <= ((hi - lo) * (max_fps as int) + 999) / 1000 + 1,
{
    let f = max_fps as int;
    let d = 1000u64 / (max_fps as u64);
    let w = (hi - lo) as int;
    assert(f <= 1000) by {
        if f > 1000 {
            vstd::arithmetic::div_mod::lemma_small_mod(1000nat, f as nat);
        }
    };
    assert(d as int == 1000int / f);
    assert((d as int) * f == 1000) by {
        vstd::arithmetic::div_mod::lemma_fundamental_div_mod(1000, f);
        assert(1000int == f * (1000int / f) + 1000int % f);
        assert((1000int / f) * f == f * (1000int / f)) by (nonlinear_arith);
    };
    assert(d >= 1) by {
        if d == 0 {
            assert((d as int) * f == 0) by (nonlinear_arith)
                requires
                    d as int == 0,
            ;
        }
    };
    lemma_rate_limit_window(times, d, lo, hi);
    assert(w / (d as int) == (w * f) / 1000) by {
        vstd::arithmetic::div_mod::lemma_div_denominator(w * f, f, d as int);
        assert((w * f) / f == w) by {
            vstd::arithmetic::div_mod::lemma_div_by_multiple(w, f);
            assert(w * f == f * w) by (nonlinear_arith);
        };
        assert(f * (d as int) == (d as int) * f) by (nonlinear_arith);
        assert((w * f) / 1000 == (w * f) / f / (d as int));
    };
    vstd::arithmetic::div_mod::lemma_div_is_ordered(w * f, w * f + 999, 1000);
}

} // verus!
