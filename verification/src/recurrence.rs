//! The recurrence calculator: given a due timestamp, an optional
//! recurrence rule and the current time, compute when a reminder should
//! fire next. Timestamps are seconds since the Unix epoch. A "month" is a
//! fixed 30-day period by design; the calculator is deliberately not
//! calendar-month-aware.

use vstd::prelude::*;

use crate::strutil::{spec_starts_with, str_eq, str_starts_with};

verus! {

/// Largest timestamp magnitude (seconds since the epoch) accepted as a
/// due time or a current time. Roughly year 318,000; far beyond any value
/// an RFC 3339 timestamp can denote.
pub const TS_BOUND: i64 = 10_000_000_000_000;

/// Largest timestamp magnitude a stored next-fire time may reach: a due
/// time advanced by at most one period, or pushed out by snoozing.
pub const FIRE_BOUND: i64 = 20_000_000_000_000;

/// How often a reminder repeats once its due time has passed.
#[derive(Clone, Copy, Debug, PartialEq, Eq, Structural)]
pub enum RecurrenceRule {
    Daily,
    Weekly,
    Monthly,
}

impl RecurrenceRule {
    /// The rule's period in seconds. A month is approximated as 30 days.
    pub open spec fn spec_period_seconds(self) -> int {
        match self {
            RecurrenceRule::Daily => 86400,
            RecurrenceRule::Weekly => 604800,
            RecurrenceRule::Monthly => 2592000,
        }
    }

    pub fn period_seconds(self) -> (r: i64)
        ensures
            r == self.spec_period_seconds(),
            0 < r <= 2592000,
    {
        match self {
            RecurrenceRule::Daily => 86400,
            RecurrenceRule::Weekly => 604800,
            RecurrenceRule::Monthly => 2592000,
        }
    }

    /// The canonical encoding of the rule as a rule string.
    pub open spec fn spec_as_str(self) -> Seq<char> {
        match self {
            RecurrenceRule::Daily => "DAILY"@,
            RecurrenceRule::Weekly => "WEEKLY"@,
            RecurrenceRule::Monthly => "MONTHLY"@,
        }
    }

    pub fn as_str(&self) -> (r: &'static str)
        ensures
            r@ == self.spec_as_str(),
    {
        match self {
            RecurrenceRule::Daily => "DAILY",
            RecurrenceRule::Weekly => "WEEKLY",
            RecurrenceRule::Monthly => "MONTHLY",
        }
    }
}

/// Which rule, if any, a rule string denotes. A rule is either the bare
/// frequency name or an RRULE-style string beginning with `FREQ=<name>`;
/// anything else means no recurrence.
pub open spec fn spec_parse_rule(s: Seq<char>) -> Option<RecurrenceRule> {
    if s == "DAILY"@ || spec_starts_with(s, "FREQ=DAILY"@) {
        Some(RecurrenceRule::Daily)
    } else if s == "WEEKLY"@ || spec_starts_with(s, "FREQ=WEEKLY"@) {
        Some(RecurrenceRule::Weekly)
    } else if s == "MONTHLY"@ || spec_starts_with(s, "FREQ=MONTHLY"@) {
        Some(RecurrenceRule::Monthly)
    } else {
        None
    }
}

/// Parse a rule string into the closed rule variant.
pub fn parse_rule(s: &str) -> (r: Option<RecurrenceRule>)
    ensures
        r == spec_parse_rule(s@),
{
    if str_eq(s, "DAILY") || str_starts_with(s, "FREQ=DAILY") {
        Some(RecurrenceRule::Daily)
    } else if str_eq(s, "WEEKLY") || str_starts_with(s, "FREQ=WEEKLY") {
        Some(RecurrenceRule::Weekly)
    } else if str_eq(s, "MONTHLY") || str_starts_with(s, "FREQ=MONTHLY") {
        Some(RecurrenceRule::Monthly)
    } else {
        None
    }
}

/// The first time of the form `t + k * period` (k >= 0) that lies
/// strictly after `now`.
pub open spec fn spec_advance(t: int, period: int, now: int) -> int
    recommends
        period > 0,
    decreases now - t + period,
{
    if t > now || period <= 0 {
        t
    } else {
        spec_advance(t + period, period, now)
    }
}

/// The next fire time: the due time itself if it is still in the future;
/// otherwise the first occurrence of the rule's grid strictly after
/// `now`, or nothing when the reminder does not recur.
pub open spec fn spec_next_fire(due_at: int, rule: Option<RecurrenceRule>, now: int) -> Option<
    int,
> {
    if due_at > now {
        Some(due_at)
    } else {
        match rule {
            None => None,
            Some(r) => Some(spec_advance(due_at, r.spec_period_seconds(), now)),
        }
    }
}

/// The next fire time as a stored (64-bit) timestamp.
pub open spec fn spec_next_fire_i64(due_at: int, rule: Option<RecurrenceRule>, now: int) -> Option<
    i64,
> {
    match spec_next_fire(due_at, rule, now) {
        None => None,
        Some(t) => Some(t as i64),
    }
}

proof fn lemma_advance_properties(t: int, period: int, now: int)
    requires
        period > 0,
        t <= now,
    ensures
        spec_advance(t, period, now) > now,
        spec_advance(t, period, now) - period <= now,
        (spec_advance(t, period, now) - t) % period == 0,
        spec_advance(t, period, now) >= t,
    decreases now - t + period,
{
    if t + period > now {
        assert(spec_advance(t + period, period, now) == t + period);
        assert(period % period == 0) by {
            vstd::arithmetic::div_mod::lemma_mod_self_0(period);
        }
    } else {
        lemma_advance_properties(t + period, period, now);
        assert((spec_advance(t, period, now) - (t + period)) % period == 0);
        assert(spec_advance(t, period, now) - t == (spec_advance(t, period, now) - (t + period))
            + period);
        assert((spec_advance(t, period, now) - t) % period == 0) by {
            let d = spec_advance(t, period, now) - (t + period);
            assert(d % period == 0);
            assert((d + period) % period == d % period) by {
                vstd::arithmetic::div_mod::lemma_mod_add_multiples_vanish(d, period);
            }
        }
    }
}

/// Every occurrence on the grid is at or after the due time, so the value
/// `spec_advance` picks is the *first* occurrence after `now`: it is
/// greater than `now`, lies on the grid of `due_at` plus whole periods,
/// and the occurrence one period earlier has already passed.
pub proof fn lemma_next_fire_is_first_occurrence(due_at: int, rule: RecurrenceRule, now: int)
    requires
        due_at <= now,
    ensures
        ({
            let fire = spec_next_fire(due_at, Some(rule), now)->Some_0;
            let period = rule.spec_period_seconds();
            &&& fire > now
            &&& fire - period <= now
            &&& (fire - due_at) % period == 0
            &&& fire >= due_at
        }),
{
    lemma_advance_properties(due_at, rule.spec_period_seconds(), now);
}

/// Compute the next fire time for a due timestamp and an optional rule.
///
/// The same `(due_at, rule, now)` triple always yields the same result;
/// there is no hidden clock. A due time in the future fires at the due
/// time; a passed due time with no rule never fires again; a passed due
/// time with a rule fires at the first grid point strictly after `now`.
pub fn next_fire_at(due_at: i64, rule: Option<RecurrenceRule>, now: i64) -> (r: Option<i64>)
    requires
        -FIRE_BOUND <= due_at <= FIRE_BOUND,
        -TS_BOUND <= now <= TS_BOUND,
    ensures
        r is Some <==> spec_next_fire(due_at as int, rule, now as int) is Some,
        r is Some ==> r->Some_0 == spec_next_fire(due_at as int, rule, now as int)->Some_0,
        r is Some ==> -FIRE_BOUND <= r->Some_0 <= FIRE_BOUND,
{
    if due_at > now {
        return Some(due_at);
    }
    match rule {
        None => None,
        Some(rule) => {
            let period = rule.period_seconds();
            let mut next = due_at;
            while next <= now
                invariant
                    -FIRE_BOUND <= next,
                    due_at <= next,
                    next <= now + period,
                    -TS_BOUND <= now <= TS_BOUND,
                    0 < period <= 2592000,
                    spec_advance(due_at as int, period as int, now as int) == spec_advance(
                        next as int,
                        period as int,
                        now as int,
                    ),
                decreases now + period - next,
            {
                next = next + period;
            }
            Some(next)
        },
    }
}

} // verus!
