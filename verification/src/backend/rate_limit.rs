//! A limit on how often a line goes to the log.
use vstd::prelude::*;

use crate::time::{Duration, Instant};

verus! {

/// The least time between two lines, in milliseconds.
pub const ERR_DIAG_INTERVAL_MS: u64 = 1000;

/// The same in nanoseconds.
pub const ERR_DIAG_INTERVAL_NANOS: u64 = 1_000_000_000;

/// Time-based rate limit: a failure that repeats on every tick must not flood
/// the log.
#[derive(Debug, Clone, Copy)]
pub struct DiagRateLimit {
    /// When a line was last allowed.
    pub last: Option<Instant>,
}

/// Whether a line is allowed at `now`.
pub open spec fn allowed(last: Option<Instant>, now: Instant) -> bool {
    last matches Some(l) ==> now@ >= l@ + ERR_DIAG_INTERVAL_NANOS
}

impl DiagRateLimit {
    pub fn new() -> (limit: Self)
        ensures
            limit.last is None,
    {
        DiagRateLimit { last: None }
    }

    /// Asks for a line at `now`.
    pub fn allow(&mut self, now: Instant) -> (r: bool)
        ensures
            r == allowed(old(self).last, now),
            final(self).last == if r { Some(now) } else { old(self).last },
    {
        let due = match self.last {
            Some(last) => now.reached(last, Duration::from_millis(ERR_DIAG_INTERVAL_MS)),
            None => true,
        };
        if due {
            self.last = Some(now);
        }
        due
    }
}

/// When a line was last allowed, after requests at the given moments.
pub open spec fn last_allowed(last: Option<Instant>, requests: Seq<Instant>) -> Option<Instant>
    decreases requests.len(),
{
    if requests.len() == 0 {
        last
    } else {
        let before = last_allowed(last, requests.drop_last());
        if allowed(before, requests.last()) {
            Some(requests.last())
        } else {
            before
        }
    }
}

/// However often it is asked, two lines that are allowed are a second or more
/// apart.
pub proof fn law_lines_are_apart(last: Option<Instant>, requests: Seq<Instant>, i: int, j: int)
    requires
        0 <= i < j < requests.len(),
        allowed(last_allowed(last, requests.take(i)), requests[i]),
        allowed(last_allowed(last, requests.take(j)), requests[j]),
    ensures
        requests[j]@ >= requests[i]@ + ERR_DIAG_INTERVAL_NANOS,
{
    lemma_last_not_before(last, requests, i, j);
}

proof fn lemma_last_not_before(last: Option<Instant>, requests: Seq<Instant>, i: int, j: int)
    requires
        0 <= i < j <= requests.len(),
        allowed(last_allowed(last, requests.take(i)), requests[i]),
    ensures
        last_allowed(last, requests.take(j)) matches Some(t) && t@ >= requests[i]@,
    decreases j,
{
    assert(requests.take(j).drop_last() =~= requests.take(j - 1));
    assert(requests.take(j).last() == requests[j - 1]);
    if j - 1 > i {
        lemma_last_not_before(last, requests, i, j - 1);
    }
}

/// The first line is allowed, and so is every one that is asked for a second or
/// more after the last: nothing but the interval holds a line back.
pub proof fn law_waiting_a_second_is_enough(last: Instant, now: Instant)
    ensures
        allowed(None, now),
        allowed(Some(last), now) <==> now@ >= last@ + 1_000_000_000,
{
}

} // verus!
