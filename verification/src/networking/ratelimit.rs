//! Keeping a distance between requests.
use vstd::prelude::*;

verus! {

/// Lets one request through per interval. Times are nanoseconds on a clock that never runs
/// backwards.
#[derive(Debug, Clone, Copy)]
pub struct RateLimiter {
    /// The least distance between two requests.
    pub interval: u128,
    /// The earliest time of the next request.
    pub next_allowed: u128,
}

impl RateLimiter {
    /// A limiter that lets a first request through at once.
    pub fn new(interval: u128, now: u128) -> (limiter: RateLimiter)
        ensures
            limiter.interval == interval,
            limiter.next_allowed == now,
    {
        RateLimiter { interval, next_allowed: now }
    }

    /// Whether a request may start at the time `now`.
    pub open spec fn allows(self, now: u128) -> bool {
        now >= self.next_allowed
    }

    /// Asks for a request at the time `now`. `None` lets it through, and books the next interval;
    /// otherwise the request has to wait for the time that is returned, and ask again.
    pub fn acquire(&mut self, now: u128) -> (wait: Option<u128>)
        requires
            now + old(self).interval <= u128::MAX,
        ensures
            *final(self) == after_acquire(*old(self), now),
            wait is None <==> old(self).allows(now),
            wait matches Some(duration) ==> now + duration == old(self).next_allowed,
    {
        if now >= self.next_allowed {
            self.next_allowed = now + self.interval;
            None
        } else {
            Some(self.next_allowed - now)
        }
    }
}

/// A limiter after it was asked for a request at the time `now`: where it lets the request through, it
/// books the next interval.
pub open spec fn after_acquire(limiter: RateLimiter, now: u128) -> RateLimiter {
    if limiter.allows(now) {
        RateLimiter {
            interval: limiter.interval,
            next_allowed: (now + limiter.interval) as u128,
        }
    } else {
        limiter
    }
}

/// The limiter after it was asked at each of the times, one after the other.
pub open spec fn after_all(limiter: RateLimiter, times: Seq<u128>) -> RateLimiter
    decreases times.len(),
{
    if times.len() == 0 {
        limiter
    } else {
        after_acquire(after_all(limiter, times.drop_last()), times.last())
    }
}

/// Whether the request with the number `i` is let through, where requests ask at each of the
/// times, one after the other.
pub open spec fn granted(limiter: RateLimiter, times: Seq<u128>, i: int) -> bool {
    after_all(limiter, times.take(i)).allows(times[i])
}

/// A new limiter never makes the first request wait.
pub proof fn law_first_request_passes(interval: u128, created: u128, now: u128)
    requires
        created <= now,
    ensures
        (RateLimiter { interval, next_allowed: created }).allows(now),
{
}

/// A request that has waited as long as it was told, while no other was let through, passes.
pub proof fn law_waiting_is_enough(limiter: RateLimiter, now: u128, duration: u128)
    requires
        !limiter.allows(now),
        now + duration == limiter.next_allowed,
    ensures
        after_acquire(limiter, now).allows((now + duration) as u128),
{
}

/// Whoever asks, and in whatever order: between two requests that are let through there lies at
/// least the interval.
pub proof fn law_grants_keep_distance(limiter: RateLimiter, times: Seq<u128>, i: int, j: int)
    requires
        0 <= i < j < times.len(),
        forall|k: int|
            0 <= k < times.len() ==> (#[trigger] times[k]) + limiter.interval <= u128::MAX,
        granted(limiter, times, i),
        granted(limiter, times, j),
    ensures
        times[j] >= times[i] + limiter.interval,
{
    lemma_interval_kept(limiter, times.take(i));
    assert(times.take(i + 1).drop_last() =~= times.take(i));
    lemma_next_allowed_grows(limiter, times, i + 1, j);
}

/// The interval never changes.
proof fn lemma_interval_kept(limiter: RateLimiter, times: Seq<u128>)
    ensures
        after_all(limiter, times).interval == limiter.interval,
    decreases times.len(),
{
    if times.len() > 0 {
        lemma_interval_kept(limiter, times.drop_last());
    }
}

/// The time of the next request never moves back.
proof fn lemma_next_allowed_grows(limiter: RateLimiter, times: Seq<u128>, i: int, j: int)
    requires
        0 <= i <= j <= times.len(),
        forall|k: int|
            0 <= k < times.len() ==> (#[trigger] times[k]) + limiter.interval <= u128::MAX,
    ensures
        after_all(limiter, times.take(i)).next_allowed <= after_all(
            limiter,
            times.take(j),
        ).next_allowed,
    decreases j - i,
{
    if i < j {
        lemma_next_allowed_grows(limiter, times, i, j - 1);
        assert(times.take(j).drop_last() =~= times.take(j - 1));
        lemma_interval_kept(limiter, times.take(j - 1));
        assert(times.take(j).last() == times[j - 1]);
    }
}

/// Of so many requests that are let through, whoever asks, the last comes at least as many
/// intervals after the first as there are steps between them. `grants` are their numbers among all
/// requests; the interval never changes.
pub proof fn law_grants_add_up(limiter: RateLimiter, times: Seq<u128>, grants: Seq<int>)
    requires
        grants.len() > 0,
        forall|a: int, b: int| 0 <= a < b < grants.len() ==> grants[a] < grants[b],
        forall|a: int|
            0 <= a < grants.len() ==> 0 <= #[trigger] grants[a] < times.len() && granted(
                limiter,
                times,
                grants[a],
            ),
        forall|k: int|
            0 <= k < times.len() ==> (#[trigger] times[k]) + limiter.interval <= u128::MAX,
    ensures
        times[grants.last()] >= times[grants[0]] + (grants.len() - 1) * limiter.interval,
        after_all(limiter, times).interval == limiter.interval,
    decreases grants.len(),
{
    lemma_interval_kept(limiter, times);
    if grants.len() > 1 {
        let front = grants.drop_last();
        assert forall|a: int, b: int| 0 <= a < b < front.len() implies front[a] < front[b] by {
            assert(grants[a] < grants[b]);
        }
        assert forall|a: int| 0 <= a < front.len() implies 0 <= #[trigger] front[a] < times.len()
            && granted(limiter, times, front[a]) by {
            assert(front[a] == grants[a]);
        }
        law_grants_add_up(limiter, times, front);
        let n = grants.len() as int;
        assert(grants[n - 2] < grants[n - 1]);
        law_grants_keep_distance(limiter, times, grants[n - 2], grants[n - 1]);
        assert(front.len() - 1 == n - 2 && front.last() == grants[n - 2] && front[0] == grants[0]);
        assert((n - 1) * limiter.interval == (n - 2) * limiter.interval + limiter.interval)
            by (nonlinear_arith);
    } else {
        assert((grants.len() - 1) * limiter.interval == 0) by (nonlinear_arith)
            requires
                grants.len() == 1,
        ;
    }
}

/// A request passes from the booked time on, and not before; the next is then booked one interval
/// later. A request that is refused changes nothing.
pub proof fn law_passes_from_booked_time(limiter: RateLimiter, now: u128)
    requires
        now + limiter.interval <= u128::MAX,
    ensures
        limiter.allows(now) <==> now >= limiter.next_allowed,
        now >= limiter.next_allowed ==> after_acquire(limiter, now).next_allowed == now
            + limiter.interval && after_acquire(limiter, now).interval == limiter.interval,
        now < limiter.next_allowed ==> after_acquire(limiter, now) == limiter,
{
}

/// Requests ask one after the other: the limiter that a later one finds is the one that those before
/// it leave.
pub proof fn law_asked_one_by_one(limiter: RateLimiter, times: Seq<u128>, now: u128)
    ensures
        after_all(limiter, Seq::empty()) == limiter,
        after_all(limiter, times.push(now)) == after_acquire(after_all(limiter, times), now),
        granted(limiter, times.push(now), times.len() as int) <==> now >= after_all(
            limiter,
            times,
        ).next_allowed,
{
    assert(times.push(now).drop_last() =~= times);
    assert(times.push(now).take(times.len() as int) =~= times);
}

} // verus!
