//! A fixed-window rate limiter keyed by caller address.
//!
//! Each caller keeps the timestamps of its recent requests; a request is
//! allowed while fewer than the limit fall inside the window ending now.
//! Time is supplied by the caller in milliseconds, so the decision logic
//! is a pure function of the recorded state and the clock reading.

use vstd::prelude::*;

use crate::models::str_eq;
use vstd::pervasive::VecAdditionalExecFns;

verus! {

/// The recorded request timestamps of one caller.
#[derive(Debug)]
pub struct RateEntry {
    pub ip: String,
    pub stamps: Vec<u64>,
}

/// The abstract value of one caller's record.
#[verifier::ext_equal]
pub ghost struct RateEntryView {
    pub ip: Seq<char>,
    pub stamps: Seq<u64>,
}

impl View for RateEntry {
    type V = RateEntryView;

    open spec fn view(&self) -> RateEntryView {
        RateEntryView { ip: self.ip@, stamps: self.stamps@ }
    }
}

impl DeepView for RateEntry {
    type V = RateEntryView;

    open spec fn deep_view(&self) -> RateEntryView {
        self.view()
    }
}

/// The index of the caller's record, `-1` when none exists.
pub open spec fn ip_index(s: Seq<RateEntryView>, ip: Seq<char>) -> int
    decreases s.len(),
{
    if s.len() == 0 {
        -1int
    } else if s[0].ip == ip {
        0int
    } else {
        let rest = ip_index(s.drop_first(), ip);
        if rest == -1 {
            -1int
        } else {
            rest + 1
        }
    }
}

/// The timestamps still inside the window ending at `now`.
pub open spec fn kept_stamps(st: Seq<u64>, window: u64, now: u64) -> Seq<u64> {
    st.filter(|t: u64| t + window > now)
}

/// The caller's recorded timestamps, empty for an unknown caller.
pub open spec fn prior_stamps(s: Seq<RateEntryView>, ip: Seq<char>) -> Seq<u64> {
    let i = ip_index(s, ip);
    if i >= 0 {
        s[i].stamps
    } else {
        Seq::empty()
    }
}

/// Whether a request is allowed: fewer in-window requests than the limit.
pub open spec fn rate_allowed(
    s: Seq<RateEntryView>,
    ip: Seq<char>,
    limit: usize,
    window: u64,
    now: u64,
) -> bool {
    kept_stamps(prior_stamps(s, ip), window, now).len() < limit
}

/// The limiter state after one decision: the caller's record holds the
/// in-window timestamps, extended by `now` when the request was allowed;
/// an unknown caller gains a record either way.
pub open spec fn limiter_after(
    s: Seq<RateEntryView>,
    ip: Seq<char>,
    limit: usize,
    window: u64,
    now: u64,
) -> Seq<RateEntryView> {
    let kept = kept_stamps(prior_stamps(s, ip), window, now);
    let newst = if rate_allowed(s, ip, limit, window, now) {
        kept.push(now)
    } else {
        kept
    };
    let e = RateEntryView { ip: ip, stamps: newst };
    let i = ip_index(s, ip);
    if i >= 0 {
        s.update(i, e)
    } else {
        s.push(e)
    }
}

/// The per-caller request history.
pub struct RateLimiter {
    entries: Vec<RateEntry>,
}

impl View for RateLimiter {
    type V = Seq<RateEntryView>;

    closed spec fn view(&self) -> Seq<RateEntryView> {
        self.entries.deep_view()
    }
}

/// If every record before `k` has another ip and `k` (if in range) has
/// this one, the ip's index is `k`, or `-1` past the end.
proof fn lemma_ip_index_at(s: Seq<RateEntryView>, ip: Seq<char>, k: int)
    requires
        0 <= k <= s.len(),
        forall|j: int| 0 <= j < k ==> (#[trigger] s[j]).ip != ip,
        k < s.len() ==> s[k].ip == ip,
    ensures
        k < s.len() ==> ip_index(s, ip) == k,
        k == s.len() ==> ip_index(s, ip) == -1,
    decreases s.len(),
{
    if s.len() > 0 {
        if k == 0 {
            if s.len() == 0 {
            }
        } else {
            let rest = s.drop_first();
            assert(forall|j: int| 0 <= j < k - 1 ==> rest[j] == s[j + 1]);
            lemma_ip_index_at(rest, ip, k - 1);
        }
    }
}

impl RateLimiter {
    /// One record per caller.
    pub open spec fn wf(self) -> bool {
        forall|i: int, j: int|
            0 <= i < self@.len() && 0 <= j < self@.len() && i != j ==> self@[i].ip != self@[j].ip
    }

    /// An empty limiter.
    pub fn new() -> (r: RateLimiter)
        ensures
            r@ == Seq::<RateEntryView>::empty(),
            r.wf(),
    {
        let r = RateLimiter { entries: Vec::new() };
        proof {
            assert(r@ =~= Seq::<RateEntryView>::empty());
        }
        r
    }

    /// Decides one request: drops the caller's timestamps that left the
    /// window, refuses when the limit is already reached, and records the
    /// request time otherwise.
    pub fn check_rate_limit(&mut self, ip: &str, limit: usize, window_ms: u64, now_ms: u64) -> (r:
        bool)
        requires
            old(self).wf(),
        ensures
            final(self).wf(),
            r == rate_allowed(old(self)@, ip@, limit, window_ms, now_ms),
            final(self)@ == limiter_after(old(self)@, ip@, limit, window_ms, now_ms),
    {
        let n = self.entries.len();
        let mut k: usize = 0;
        let mut found = false;
        let mut at: usize = 0;
        while k < n && !found
            invariant
                self == old(self),
                n == self.entries@.len(),
                k <= n,
                !found ==> forall|j: int| 0 <= j < k ==> (#[trigger] self@[j]).ip != ip@,
                found ==> at < k <= n && self@[at as int].ip == ip@ && (forall|j: int|
                    0 <= j < at ==> (#[trigger] self@[j]).ip != ip@),
            decreases n - k,
        {
            if str_eq(self.entries[k].ip.as_str(), ip) {
                found = true;
                at = k;
            }
            k = k + 1;
        }
        proof {
            if found {
                lemma_ip_index_at(self@, ip@, at as int);
            } else {
                lemma_ip_index_at(self@, ip@, n as int);
            }
        }
        let ghost prior = prior_stamps(self@, ip@);
        let mut kept: Vec<u64> = Vec::new();
        if found {
            let m = self.entries[at].stamps.len();
            let mut j: usize = 0;
            while j < m
                invariant
                    self == old(self),
                    at < self.entries@.len(),
                    prior == self@[at as int].stamps,
                    m == prior.len(),
                    j <= m,
                    kept@ == prior.subrange(0, j as int).filter(|t: u64| t + window_ms > now_ms),
                decreases m - j,
            {
                let t = self.entries[at].stamps[j];
                proof {
                    reveal(Seq::filter);
                    let pre = prior.subrange(0, j as int);
                    let ext = prior.subrange(0, j as int + 1);
                    assert(ext.drop_last() =~= pre);
                    assert(ext.last() == prior[j as int]);
                }
                if (t as u128) + (window_ms as u128) > (now_ms as u128) {
                    kept.push(t);
                }
                j = j + 1;
                proof {
                    assert(kept@ =~= prior.subrange(0, j as int).filter(
                        |t: u64| t + window_ms > now_ms,
                    ));
                }
            }
            proof {
                assert(prior.subrange(0, m as int) =~= prior);
            }
        } else {
            proof {
                reveal(Seq::filter);
                assert(prior =~= Seq::<u64>::empty());
                assert(kept@ =~= kept_stamps(prior, window_ms, now_ms));
            }
        }
        let allowed = kept.len() < limit;
        if allowed {
            kept.push(now_ms);
        }
        let entry = RateEntry { ip: str_to_string(ip), stamps: kept };
        if found {
            self.entries.set(at, entry);
            proof {
                assert(self@ =~= limiter_after(old(self)@, ip@, limit, window_ms, now_ms));
                assert forall|i1: int, i2: int|
                    0 <= i1 < self@.len() && 0 <= i2 < self@.len() && i1 != i2 implies self@[i1].ip
                    != self@[i2].ip by {
                    assert(old(self)@[i1].ip != old(self)@[i2].ip);
                }
            }
        } else {
            self.entries.push(entry);
            proof {
                assert(self@ =~= limiter_after(old(self)@, ip@, limit, window_ms, now_ms));
                assert forall|i1: int, i2: int|
                    0 <= i1 < self@.len() && 0 <= i2 < self@.len() && i1 != i2 implies self@[i1].ip
                    != self@[i2].ip by {
                    let m0 = old(self)@.len() as int;
                    if i1 < m0 && i2 < m0 {
                        assert(old(self)@[i1].ip != old(self)@[i2].ip);
                    }
                }
            }
        }
        allowed
    }
}

/// Copies a string slice into an owned string.
fn str_to_string(s: &str) -> (r: String)
    ensures
        r@ == s@,
{
    s.to_owned()
}

} // verus!
