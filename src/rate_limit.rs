//! Per-client request counting over a fixed window.

use vstd::prelude::*;

verus! {

/// A client address; IPv4 and IPv6 addresses are distinct clients.
#[derive(PartialEq, Eq, Structural, Clone, Copy, Debug)]
pub enum ClientIp {
    V4(u32),
    V6(u128),
}

/// Requests counted for one client since its window opened at `first_attempt`
/// (milliseconds on a monotonic clock).
#[derive(PartialEq, Eq, Structural, Clone, Copy, Debug)]
pub struct RateEntry {
    pub ip: ClientIp,
    pub attempts: u32,
    pub first_attempt: u64,
}

/// Allows each client `max_requests` requests per window of `window` milliseconds.
pub struct RateLimiter {
    entries: Vec<RateEntry>,
    max_requests: u32,
    window: u64,
}

/// Time since `first`, zero when `now` lies before it.
pub open spec fn elapsed(first: u64, now: u64) -> int {
    if now >= first {
        now - first
    } else {
        0
    }
}

/// The entries whose window is still open at `now`, in their order.
pub open spec fn live(s: Seq<RateEntry>, now: u64, window: u64) -> Seq<RateEntry>
    decreases s.len(),
{
    if s.len() == 0 {
        Seq::empty()
    } else if elapsed(s.last().first_attempt, now) < window {
        live(s.drop_last(), now, window).push(s.last())
    } else {
        live(s.drop_last(), now, window)
    }
}

/// `i` is the first entry of `s` for `ip`.
pub open spec fn is_first_at(s: Seq<RateEntry>, ip: ClientIp, i: int) -> bool {
    &&& 0 <= i < s.len()
    &&& s[i].ip == ip
    &&& forall|j: int| 0 <= j < i ==> s[j].ip != ip
}

impl RateLimiter {
    pub closed spec fn view(&self) -> Seq<RateEntry> {
        self.entries@
    }

    pub closed spec fn max_requests(&self) -> u32 {
        self.max_requests
    }

    pub closed spec fn window(&self) -> u64 {
        self.window
    }

    /// A limiter with no client counted yet.
    pub fn new(max_requests: u32, window: u64) -> (r: RateLimiter)
        ensures
            r.view() == Seq::<RateEntry>::empty(),
            r.max_requests() == max_requests,
            r.window() == window,
    {
        RateLimiter { entries: Vec::new(), max_requests, window }
    }

    /// Counts a request of `ip` at `now`. Entries whose window has closed are
    /// dropped first; then a client already at its limit is refused (`true`),
    /// another one is counted, and an unknown one opens a window at `now`.
    pub fn is_rate_limited(&mut self, ip: ClientIp, now: u64) -> (r: bool)
        ensures
            final(self).max_requests() == old(self).max_requests(),
            final(self).window() == old(self).window(),
            ({
                let kept = live(old(self).view(), now, old(self).window());
                &&& forall|i: int| #[trigger]
                    is_first_at(kept, ip, i) ==> if kept[i].attempts >= old(self).max_requests() {
                        r && final(self).view() == kept
                    } else {
                        !r && final(self).view() == kept.update(
                            i,
                            RateEntry { attempts: (kept[i].attempts + 1) as u32, ..kept[i] },
                        )
                    }
                &&& (forall|i: int| 0 <= i < kept.len() ==> kept[i].ip != ip) ==> !r
                    && final(self).view() == kept.push(
                    RateEntry { ip, attempts: 1, first_attempt: now },
                )
            }),
    {
        let ghost kept = live(self.entries@, now, self.window);
        let mut fresh: Vec<RateEntry> = Vec::new();
        let mut k: usize = 0;
        while k < self.entries.len()
            invariant
                k <= self.entries@.len(),
                *self == *old(self),
                fresh@ == live(self.entries@.subrange(0, k as int), now, self.window),
            decreases self.entries@.len() - k,
        {
            let e = self.entries[k];
            proof {
                assert(self.entries@.subrange(0, k + 1).drop_last() =~= self.entries@.subrange(0, k as int));
            }
            let age: u64 = if now >= e.first_attempt {
                now - e.first_attempt
            } else {
                0
            };
            if age < self.window {
                fresh.push(e);
            }
            k = k + 1;
        }
        proof {
            assert(self.entries@.subrange(0, self.entries@.len() as int) =~= self.entries@);
        }
        self.entries = fresh;
        let mut i: usize = 0;
        while i < self.entries.len()
            invariant
                self.entries@ == kept,
                kept == live(old(self).entries@, now, old(self).window),
                self.max_requests == old(self).max_requests,
                self.window == old(self).window,
                i <= kept.len(),
                forall|j: int| 0 <= j < i ==> kept[j].ip != ip,
            decreases kept.len() - i,
        {
            if self.entries[i].ip == ip {
                let e = self.entries[i];
                assert(is_first_at(kept, ip, i as int));
                assert forall|j: int| #[trigger] is_first_at(kept, ip, j) implies j == i by {
                    if j > i {
                        assert(kept[i as int].ip != ip);
                    }
                }
                if e.attempts >= self.max_requests {
                    return true;
                }
                self.entries.set(i, RateEntry { attempts: e.attempts + 1, ..e });
                return false;
            }
            i = i + 1;
        }
        self.entries.push(RateEntry { ip, attempts: 1, first_attempt: now });
        false
    }
}

} // verus!
