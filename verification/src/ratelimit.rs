//! Limiting how many requests each client may make within a sliding time
//! window.

use vstd::hash_map::StringHashMap;
use vstd::prelude::*;

verus! {

/// A moment in UTC: whole seconds since 1970-01-01 and nanoseconds past
/// that second.
#[derive(Clone, Copy, PartialEq, Eq, Structural, Debug)]
pub struct Instant {
    pub secs: i64,
    pub nanos: u32,
}

/// `a` is no later than `b`.
pub open spec fn no_later(a: Instant, b: Instant) -> bool {
    a.secs < b.secs || (a.secs == b.secs && a.nanos <= b.nanos)
}

/// The earliest second that the clock can represent (the start of year
/// -262143).
pub open spec fn earliest_second() -> int {
    -8334601315200
}

/// The latest second that the clock can represent (the end of year 262142).
pub open spec fn latest_second() -> int {
    8210266876799
}

/// The longest window, in seconds, that the clock arithmetic accepts.
pub open spec fn max_window_span() -> int {
    i64::MAX / 1000
}

/// The signed span of a window of `window_seconds` (the value taken as a
/// 64-bit signed number, wrapping as a cast does).
pub open spec fn window_span(window_seconds: u64) -> int {
    if window_seconds <= i64::MAX {
        window_seconds as int
    } else {
        window_seconds as int - 0x1_0000_0000_0000_0000
    }
}

/// The window of `window_seconds` that ends at `now` can be computed: its
/// span is within bounds and its start is a representable moment.
pub open spec fn window_computable(window_seconds: u64, now: Instant) -> bool {
    let d = window_span(window_seconds);
    &&& -max_window_span() <= d <= max_window_span()
    &&& earliest_second() <= now.secs - d <= latest_second()
}

/// The start of the window of `window_seconds` that ends at `now`.
pub open spec fn window_start(window_seconds: u64, now: Instant) -> Instant {
    Instant { secs: (now.secs - window_span(window_seconds)) as i64, nanos: now.nanos }
}

/// The moments of `times` no earlier than `start`, in order.
pub open spec fn kept_since(times: Seq<Instant>, start: Instant) -> Seq<Instant>
    decreases times.len(),
{
    if times.len() == 0 {
        seq![]
    } else {
        let rest = kept_since(times.drop_last(), start);
        if no_later(start, times.last()) {
            rest.push(times.last())
        } else {
            rest
        }
    }
}

pub proof fn lemma_kept_since_len(times: Seq<Instant>, start: Instant)
    ensures
        kept_since(times, start).len() <= times.len(),
    decreases times.len(),
{
    if times.len() > 0 {
        lemma_kept_since_len(times.drop_last(), start);
    }
}

/// The requests remembered for a key never outnumber the limit once they
/// are within it: a request is recorded only when fewer than `limit` are in
/// the window, and forgetting old ones only shortens the list.
pub proof fn law_history_within_limit(
    before: Seq<Instant>,
    start: Instant,
    now: Instant,
    limit: usize,
)
    requires
        before.len() <= limit,
    ensures
        ({
            let kept = kept_since(before, start);
            if kept.len() >= limit {
                kept.len() <= limit
            } else {
                kept.push(now).len() <= limit
            }
        }),
{
    lemma_kept_since_len(before, start);
}

/// The current time (`chrono::Utc::now`).  Trusted: it is on or after
/// 1970-01-01, before the latest representable moment, with fewer than a
/// billion nanoseconds; nothing else is promised of it.  The call panics,
/// rather than returning, when the system clock reads before 1970 or after
/// the year 262142.
#[verifier::external_body]
pub fn utc_now() -> (t: Instant)
    ensures
        0 <= t.secs <= latest_second(),
        t.nanos < 1_000_000_000,
{
    let now = chrono::Utc::now();
    Instant { secs: now.timestamp(), nanos: now.timestamp_subsec_nanos() }
}

/// Per-key request times, allowing `limit` requests per window of
/// `window_seconds`.
pub struct RateLimiter {
    requests: StringHashMap<Vec<Instant>>,
    limit: usize,
    window_seconds: u64,
}

impl View for RateLimiter {
    type V = Map<Seq<char>, Seq<Instant>>;

    closed spec fn view(&self) -> Map<Seq<char>, Seq<Instant>> {
        self.requests@.map_values(|v: Vec<Instant>| v@)
    }
}

impl RateLimiter {
    pub closed spec fn limit(&self) -> usize {
        self.limit
    }

    pub closed spec fn window_seconds(&self) -> u64 {
        self.window_seconds
    }

    /// A limiter with no requests recorded yet.
    pub fn new(limit: usize, window_seconds: u64) -> (r: Self)
        ensures
            r@ == Map::<Seq<char>, Seq<Instant>>::empty(),
            r.limit() == limit,
            r.window_seconds() == window_seconds,
    {
        let r = RateLimiter { requests: StringHashMap::new(), limit, window_seconds };
        assert(r@ =~= Map::<Seq<char>, Seq<Instant>>::empty());
        r
    }

    /// Records a request for `key` at `now` if fewer than `limit` requests
    /// for it fall within the window ending at `now`; requests older than
    /// the window are forgotten either way.
    pub fn check_rate_limit_at(&mut self, key: &str, now: Instant) -> (allowed: bool)
        requires
            window_computable(old(self).window_seconds(), now),
        ensures
            final(self).limit() == old(self).limit(),
            final(self).window_seconds() == old(self).window_seconds(),
            ({
                let before = if old(self)@.contains_key(key@) {
                    old(self)@[key@]
                } else {
                    Seq::<Instant>::empty()
                };
                let kept = kept_since(before, window_start(old(self).window_seconds(), now));
                if kept.len() >= old(self).limit() {
                    &&& !allowed
                    &&& final(self)@ == old(self)@.insert(key@, kept)
                } else {
                    &&& allowed
                    &&& final(self)@ == old(self)@.insert(key@, kept.push(now))
                }
            }),
    {
        let span: i64 = if self.window_seconds <= i64::MAX as u64 {
            self.window_seconds as i64
        } else {
            (self.window_seconds - (i64::MAX as u64) - 1) as i64 - i64::MAX - 1
        };
        assert(span == window_span(self.window_seconds));
        let start = Instant { secs: now.secs - span, nanos: now.nanos };
        let times: Vec<Instant> = match self.requests.get(key) {
            Some(v) => v.clone(),
            None => Vec::new(),
        };
        let ghost before = times@;
        let mut kept: Vec<Instant> = Vec::new();
        let mut i: usize = 0;
        while i < times.len()
            invariant
                i <= times.len(),
                before == times@,
                kept@ == kept_since(before.take(i as int), start),
            decreases times.len() - i,
        {
            proof {
                crate::text::lemma_take_succ(before, i as int);
            }
            let t = times[i];
            if start.secs < t.secs || (start.secs == t.secs && start.nanos <= t.nanos) {
                kept.push(t);
            }
            i += 1;
        }
        assert(before.take(times.len() as int) =~= before);
        let allowed = if kept.len() >= self.limit {
            false
        } else {
            kept.push(now);
            true
        };
        self.requests.insert(key.to_string(), kept);
        proof {
            assert(self@ =~= old(self)@.insert(
                key@,
                if allowed {
                    kept_since(before, start).push(now)
                } else {
                    kept_since(before, start)
                },
            ));
        }
        allowed
    }

    /// Records a request for `key` now, as `check_rate_limit_at` does with
    /// the current time; `None` (and nothing recorded) when the window
    /// cannot be computed on the clock, which never happens for a window
    /// no longer than the clock reaches back before 1970.
    pub fn check_rate_limit(&mut self, key: &str) -> (r: Option<bool>)
        ensures
            final(self).limit() == old(self).limit(),
            final(self).window_seconds() == old(self).window_seconds(),
            r is None ==> final(self)@ == old(self)@,
            old(self).window_seconds() <= -earliest_second() ==> r is Some,
            r is Some ==> exists|now: Instant|
                {
                    &&& window_computable(old(self).window_seconds(), now)
                    &&& final(self)@.contains_key(key@)
                    &&& {
                        let before = if old(self)@.contains_key(key@) {
                            old(self)@[key@]
                        } else {
                            Seq::<Instant>::empty()
                        };
                        let kept = kept_since(before, window_start(old(self).window_seconds(), now));
                        if kept.len() >= old(self).limit() {
                            r == Some(false) && final(self)@ == old(self)@.insert(key@, kept)
                        } else {
                            r == Some(true) && final(self)@ == old(self)@.insert(key@, kept.push(now))
                        }
                    }
                },
    {
        let now = utc_now();
        let w = self.window_seconds;
        // The span as a signed number, and whether the window fits the clock.
        let bound: i64 = i64::MAX / 1000;
        let span: i64 = if w <= i64::MAX as u64 {
            w as i64
        } else {
            (w - (i64::MAX as u64) - 1) as i64 - i64::MAX - 1
        };
        assert(span == window_span(w));
        if span > bound || span < -bound {
            return None;
        }
        let start: i64 = now.secs - span;
        if start < -8334601315200i64 || start > 8210266876799i64 {
            return None;
        }
        let allowed = self.check_rate_limit_at(key, now);
        Some(allowed)
    }
}

} // verus!
