//! The time that a request may take in all, and the time that is left for an attempt.

use vstd::prelude::*;

verus! {

/// Nanoseconds in a millisecond.
pub const NANOS_PER_MS: u128 = 1_000_000;

/// The point in time, in nanoseconds on the caller's clock, by which a request that starts at
/// `now_ns` has to be answered; none where there is no limit or the clock cannot tell.
pub open spec fn deadline_for(max_total_ms: u64, now_ns: u128) -> Option<u128> {
    if max_total_ms == 0 || now_ns + max_total_ms * NANOS_PER_MS > u128::MAX {
        None
    } else {
        Some((now_ns + max_total_ms * NANOS_PER_MS) as u128)
    }
}

/// Sets the deadline of a request that starts now.
pub fn racing_deadline(max_total_ms: u64, now_ns: u128) -> (r: Option<u128>)
    ensures
        r == deadline_for(max_total_ms, now_ns),
{
    if max_total_ms == 0 {
        return None;
    }
    assert(max_total_ms * NANOS_PER_MS <= u64::MAX * NANOS_PER_MS) by (nonlinear_arith)
        requires
            max_total_ms <= u64::MAX,
    ;
    let span: u128 = max_total_ms as u128 * NANOS_PER_MS;
    now_ns.checked_add(span)
}

/// The whole milliseconds that are left until a deadline, as far as they fit.
pub open spec fn remaining_ms(deadline_ns: u128, now_ns: u128) -> u64 {
    let ms = (deadline_ns - now_ns) / NANOS_PER_MS as int;
    if now_ns > deadline_ns {
        0
    } else if ms > u64::MAX {
        u64::MAX
    } else {
        ms as u64
    }
}

/// The time that an attempt of `per_attempt_ms` gets before a deadline; none where not a
/// whole millisecond is left.
pub open spec fn time_before(deadline: Option<u128>, now_ns: u128, per_attempt_ms: u64) -> Option<
    u64,
> {
    match deadline {
        None => Some(per_attempt_ms),
        Some(d) => if remaining_ms(d, now_ns) == 0 {
            None
        } else if per_attempt_ms <= remaining_ms(d, now_ns) {
            Some(per_attempt_ms)
        } else {
            Some(remaining_ms(d, now_ns))
        },
    }
}

/// Cuts the time of an attempt to what is left before a deadline.
pub fn timeout_before_deadline(deadline: Option<u128>, now_ns: u128, per_attempt_ms: u64) -> (r:
    Option<u64>)
    ensures
        r == time_before(deadline, now_ns, per_attempt_ms),
{
    match deadline {
        None => Some(per_attempt_ms),
        Some(d) => {
            if now_ns > d {
                return None;
            }
            let ms: u128 = (d - now_ns) / NANOS_PER_MS;
            let left: u64 = if ms > u64::MAX as u128 {
                u64::MAX
            } else {
                ms as u64
            };
            if left == 0 {
                None
            } else if per_attempt_ms <= left {
                Some(per_attempt_ms)
            } else {
                Some(left)
            }
        },
    }
}

/// An attempt never gets more time than it asked for, nor runs past the deadline; and as time
/// goes on it never gets more.
pub proof fn law_attempts_end_by_the_deadline(
    deadline: u128,
    now_ns: u128,
    later_ns: u128,
    per_attempt_ms: u64,
)
    requires
        now_ns <= later_ns,
    ensures
        time_before(Some(deadline), now_ns, per_attempt_ms) matches Some(ms) ==> ms
            <= per_attempt_ms && now_ns + ms * NANOS_PER_MS <= deadline,
        time_before(Some(deadline), later_ns, per_attempt_ms) matches Some(late) ==> time_before(
            Some(deadline),
            now_ns,
            per_attempt_ms,
        ) matches Some(early) && late <= early,
{
    if let Some(ms) = time_before(Some(deadline), now_ns, per_attempt_ms) {
        let left = (deadline - now_ns) / NANOS_PER_MS as int;
        assert(ms <= left);
        assert(ms * NANOS_PER_MS <= left * NANOS_PER_MS) by (nonlinear_arith)
            requires
                ms <= left,
        ;
        vstd::arithmetic::div_mod::lemma_fundamental_div_mod(
            deadline - now_ns,
            NANOS_PER_MS as int,
        );
        assert(left * NANOS_PER_MS == NANOS_PER_MS * left) by (nonlinear_arith);
    }
    if now_ns <= later_ns && later_ns <= deadline {
        vstd::arithmetic::div_mod::lemma_div_is_ordered(
            deadline - later_ns,
            deadline - now_ns,
            NANOS_PER_MS as int,
        );
    }
}

/// With a limit of zero there is no deadline, and every attempt gets all its time.
pub proof fn law_no_limit_no_deadline(now_ns: u128, later_ns: u128, per_attempt_ms: u64)
    ensures
        time_before(deadline_for(0, now_ns), later_ns, per_attempt_ms) == Some(per_attempt_ms),
{
}

} // verus!
