//! Sliding-window rate limiting. Instants are carried as millisecond
//! timestamps supplied by the caller.

use vstd::prelude::*;

verus! {

/// Rate limit configuration. The window length is in seconds.
#[derive(Clone, Copy, Debug)]
pub struct RateLimitConfig {
    pub requests_per_window: u32,
    pub window_duration: u64,
    pub burst_size: u32,
}

impl Default for RateLimitConfig {
    fn default() -> (r: Self)
        ensures
            r.requests_per_window == 100,
            r.window_duration == 60,
            r.burst_size == 10,
    {
        RateLimitConfig { requests_per_window: 100, window_duration: 60, burst_size: 10 }
    }
}

/// The stricter limits applied to the authentication endpoints.
pub struct AuthRateLimits;

impl AuthRateLimits {
    /// The limit for login attempts.
    pub fn login() -> (r: RateLimitConfig)
        ensures
            r.requests_per_window == 5,
            r.window_duration == 900,
            r.burst_size == 2,
    {
        RateLimitConfig { requests_per_window: 5, window_duration: 900, burst_size: 2 }
    }

    /// The limit for registrations.
    pub fn register() -> (r: RateLimitConfig)
        ensures
            r.requests_per_window == 3,
            r.window_duration == 3600,
            r.burst_size == 1,
    {
        RateLimitConfig { requests_per_window: 3, window_duration: 3600, burst_size: 1 }
    }

    /// The limit for password reset requests.
    pub fn password_reset() -> (r: RateLimitConfig)
        ensures
            r.requests_per_window == 3,
            r.window_duration == 3600,
            r.burst_size == 1,
    {
        RateLimitConfig { requests_per_window: 3, window_duration: 3600, burst_size: 1 }
    }

    /// The limit for email verification requests.
    pub fn email_verify() -> (r: RateLimitConfig)
        ensures
            r.requests_per_window == 10,
            r.window_duration == 3600,
            r.burst_size == 2,
    {
        RateLimitConfig { requests_per_window: 10, window_duration: 3600, burst_size: 2 }
    }
}

/// The request history of one client key.
#[derive(Debug)]
pub struct RequestHistory {
    pub key: String,
    pub timestamps: Vec<u64>,
}

/// The start of the window that reaches back `window_duration`
/// seconds from `now_ms`, clamped at zero.
pub open spec fn spec_window_start(now_ms: u64, config: RateLimitConfig) -> u64 {
    if now_ms >= config.window_duration * 1000 {
        (now_ms - config.window_duration * 1000) as u64
    } else {
        0u64
    }
}

/// The timestamps of `ts` that lie strictly inside the window.
pub open spec fn spec_retained(ts: Seq<u64>, window_start: u64) -> Seq<u64>
    decreases ts.len(),
{
    if ts.len() == 0 {
        Seq::empty()
    } else {
        let rest = spec_retained(ts.drop_last(), window_start);
        if ts.last() > window_start {
            rest.push(ts.last())
        } else {
            rest
        }
    }
}

/// Per-key request histories.
#[derive(Debug)]
pub struct RateLimiterState {
    pub requests: Vec<RequestHistory>,
}

impl RateLimiterState {
    /// Keys are unique.
    pub open spec fn wf(self) -> bool {
        forall|i: int, j: int|
            0 <= i < j < self.requests@.len() ==> (#[trigger] self.requests@[i]).key@ != (
            #[trigger] self.requests@[j]).key@
    }

    /// Whether a history for `key` exists.
    pub open spec fn has_key(self, key: Seq<char>) -> bool {
        exists|i: int|
            0 <= i < self.requests@.len() && (#[trigger] self.requests@[i]).key@ == key
    }

    /// The index of `key`'s history.
    pub open spec fn key_idx(self, key: Seq<char>) -> int {
        choose|i: int|
            0 <= i < self.requests@.len() && (#[trigger] self.requests@[i]).key@ == key
    }

    /// An empty rate limiter.
    pub fn new() -> (r: Self)
        ensures
            r.wf(),
            r.requests@.len() == 0,
    {
        RateLimiterState { requests: Vec::new() }
    }

    /// Finds the history index of `key`.
    fn find_key(&self, key: &String) -> (r: Option<usize>)
        ensures
            match r {
                Some(i) => i < self.requests@.len() && self.requests@[i as int].key@ == key@,
                None => !self.has_key(key@),
            },
    {
        let n = self.requests.len();
        let mut i: usize = 0;
        while i < n
            invariant
                0 <= i <= n,
                n == self.requests@.len(),
                forall|m: int| 0 <= m < i ==> (#[trigger] self.requests@[m]).key@ != key@,
            decreases n - i,
        {
            if self.requests[i].key == *key {
                return Some(i);
            }
            i = i + 1;
        }
        None
    }

    /// Records a request at instant `now_ms` under `key` and decides
    /// whether it is allowed: expired entries are dropped, and the
    /// request passes exactly when the remaining count is below the
    /// configured limit, in which case it is recorded.
    pub fn is_allowed(&mut self, key: &str, config: &RateLimitConfig, now_ms: u64) -> (r: bool)
        requires
            old(self).wf(),
            config.window_duration * 1000 <= u64::MAX,
        ensures
            final(self).wf(),
            ({
                let ws = spec_window_start(now_ms, *config);
                if old(self).has_key(key@) {
                    let i = old(self).key_idx(key@);
                    let kept = spec_retained(old(self).requests@[i].timestamps@, ws);
                    &&& r == (kept.len() < config.requests_per_window)
                    &&& final(self).requests@.len() == old(self).requests@.len()
                    &&& forall|j: int|
                        0 <= j < old(self).requests@.len() && j != i ==> (#[trigger] final(self).requests@[j]) == old(self).requests@[j]
                    &&& final(self).requests@[i].key@ == key@
                    &&& final(self).requests@[i].timestamps@ == if r {
                        kept.push(now_ms)
                    } else {
                        kept
                    }
                } else {
                    &&& r == (config.requests_per_window > 0)
                    &&& final(self).requests@.len() == old(self).requests@.len() + 1
                    &&& forall|j: int|
                        0 <= j < old(self).requests@.len() ==> (#[trigger] final(self).requests@[j]) == old(self).requests@[j]
                    &&& final(self).requests@.last().key@ == key@
                    &&& final(self).requests@.last().timestamps@ == if r {
                        seq![now_ms]
                    } else {
                        Seq::<u64>::empty()
                    }
                }
            }),
    {
        let window_ms = config.window_duration * 1000;
        let window_start: u64 = if now_ms >= window_ms {
            now_ms - window_ms
        } else {
            0
        };
        // find or create the history for this key
        let key_owned: String = key.to_owned();
        let found = self.find_key(&key_owned);
        let idx: usize = match found {
            Some(i) => {
                proof {
                    assert(old(self).has_key(key@));
                    let i2 = old(self).key_idx(key@);
                    assert(0 <= i2 < old(self).requests@.len() && old(self).requests@[i2].key@
                        == key@);
                    assert(i2 == i as int);
                }
                i
            },
            None => {
                let n = self.requests.len();
                self.requests.push(RequestHistory { key: key_owned, timestamps: Vec::new() });
                proof {
                    assert(!old(self).has_key(key@));
                    assert forall|a: int, b: int|
                        0 <= a < b < self.requests@.len() implies (
                    #[trigger] self.requests@[a]).key@ != (#[trigger] self.requests@[b]).key@ by {
                        if b == self.requests@.len() - 1 {
                            assert(self.requests@[a] == old(self).requests@[a]);
                        }
                    }
                }
                n
            },
        };
        let ghost mid = *self;
        let ghost target = idx as int;
        // drop the expired timestamps
        let mut tmp: Vec<u64> = Vec::new();
        core::mem::swap(&mut self.requests[idx].timestamps, &mut tmp);
        let total = tmp.len();
        let mut t: usize = 0;
        while t < total
            invariant
                0 <= t <= total,
                total == tmp@.len(),
                idx < self.requests@.len(),
                self.requests@.len() == mid.requests@.len(),
                forall|j: int|
                    0 <= j < self.requests@.len() && j != idx ==> (#[trigger] self.requests@[j])
                        == mid.requests@[j],
                self.requests@[idx as int].key == mid.requests@[target].key,
                self.requests@[idx as int].timestamps@ == spec_retained(
                    tmp@.take(t as int),
                    window_start,
                ),
            decreases total - t,
        {
            let ts = tmp[t];
            if ts > window_start {
                self.requests[idx].timestamps.push(ts);
            }
            proof {
                assert(tmp@.take(t + 1).drop_last() =~= tmp@.take(t as int));
                assert(tmp@.take(t + 1).last() == tmp@[t as int]);
            }
            t = t + 1;
        }
        proof {
            assert(tmp@.take(total as int) =~= tmp@);
        }
        // decide and record
        let allowed = (self.requests[idx].timestamps.len() as u64) < (
        config.requests_per_window as u64);
        if allowed {
            self.requests[idx].timestamps.push(now_ms);
        }
        proof {
            assert forall|a: int, b: int|
                0 <= a < b < self.requests@.len() implies (#[trigger] self.requests@[a]).key@ != (
            #[trigger] self.requests@[b]).key@ by {
                assert(self.requests@[a].key@ == mid.requests@[a].key@);
                assert(self.requests@[b].key@ == mid.requests@[b].key@);
            }
            if old(self).has_key(key@) {
                let i2 = old(self).key_idx(key@);
                assert(0 <= i2 < old(self).requests@.len() && old(self).requests@[i2].key@
                    == key@);
                assert(i2 == target);
            }
        }
        allowed
    }

    /// Drops every timestamp older than one hour before `now_ms`,
    /// and every key left with no timestamps: no surviving entry is
    /// empty.
    pub fn cleanup_expired(&mut self, now_ms: u64)
        requires
            old(self).wf(),
        ensures
            final(self).wf(),
            forall|j: int|
                0 <= j < final(self).requests@.len() ==> (#[trigger] final(self).requests@[j]).timestamps@.len() > 0,
    {
        let mut drained: Vec<RequestHistory> = Vec::new();
        core::mem::swap(&mut self.requests, &mut drained);
        let n = drained.len();
        let mut i: usize = 0;
        while i < n
            invariant
                0 <= i <= n,
                n == drained@.len(),
                old(self).wf(),
                drained@ == old(self).requests@,
                forall|j: int|
                    0 <= j < self.requests@.len() ==> (
                    #[trigger] self.requests@[j]).timestamps@.len() > 0,
                forall|j: int|
                    0 <= j < self.requests@.len() ==> exists|m: int|
                        0 <= m < i && (#[trigger] self.requests@[j]).key@ == (
                        #[trigger] drained@[m]).key@,
                self.wf(),
            decreases n - i,
        {
            let entry = &drained[i];
            let total = entry.timestamps.len();
            let mut fresh: Vec<u64> = Vec::new();
            let mut t: usize = 0;
            while t < total
                invariant
                    0 <= t <= total,
                    total == entry.timestamps@.len(),
                decreases total - t,
            {
                let ts = entry.timestamps[t];
                let expired = ts < u64::MAX - 3600000 + 1 && now_ms >= ts + 3600000;
                if !expired {
                    fresh.push(ts);
                }
                t = t + 1;
            }
            let ghost prev = self.requests@;
            if fresh.len() > 0 {
                self.requests.push(RequestHistory { key: entry.key.clone(), timestamps: fresh });
                proof {
                    assert forall|a: int, b: int|
                        0 <= a < b < self.requests@.len() implies (
                    #[trigger] self.requests@[a]).key@ != (#[trigger] self.requests@[b]).key@ by {
                        if b == self.requests@.len() - 1 {
                            assert(self.requests@[a] == prev[a]);
                            let m = choose|m: int|
                                0 <= m < i && (#[trigger] prev[a]).key@ == (
                                #[trigger] drained@[m]).key@;
                            assert(drained@[m].key@ != drained@[i as int].key@);
                        }
                    }
                    assert forall|j: int| 0 <= j < self.requests@.len() implies exists|m: int|
                        0 <= m < i + 1 && (#[trigger] self.requests@[j]).key@ == (
                        #[trigger] drained@[m]).key@ by {
                        if j < prev.len() {
                            assert(self.requests@[j] == prev[j]);
                        } else {
                            assert((#[trigger] self.requests@[j]).key@ == (
                            #[trigger] drained@[i as int]).key@);
                        }
                    }
                }
            }
            i = i + 1;
        }
    }
}

} // verus!
