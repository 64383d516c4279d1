//! Dashboard domain data and the weekly spending series. The dashboard's
//! aggregates come from storage outside the verified engine; the series
//! builder that lays seven days out from a week start is verified here.

use vstd::prelude::*;

use crate::calendar::{
    spec_date_string, spec_next_day, valid_date, date_string, next_day, Date,
};

verus! {

/// A snapshot of the figures the dashboard shows.
#[derive(Debug, Clone)]
pub struct DashboardSnapshot {
    pub currency: String,
    pub net_worth_cents: i64,
    pub net_worth_delta_cents: i64,
    pub cash_flow_cents: i64,
    pub cash_flow_previous_cents: i64,
    pub budget_total_cents: i64,
    pub budget_spent_cents: i64,
    pub weekly_spending: Vec<WeeklySpendingPoint>,
    pub accounts: Vec<AccountHighlight>,
}

/// Spending on one day of the dashboard's week.
#[derive(Debug, Clone)]
pub struct WeeklySpendingPoint {
    pub date: String,
    pub amount_cents: i64,
}

/// One account tile on the dashboard.
#[derive(Debug, Clone)]
pub struct AccountHighlight {
    pub id: String,
    pub name: String,
    pub balance_cents: i64,
    pub account_type: Option<String>,
    pub color_token: Option<String>,
}

/// Errors of the dashboard service.
#[derive(Debug)]
pub enum DashboardServiceError {
    Database(String),
    Internal(String),
}

/// The date `offset` days after `start`.
pub open spec fn spec_day_at(start: Date, offset: nat) -> Date
    decreases offset,
{
    if offset == 0 {
        start
    } else {
        spec_next_day(spec_day_at(start, (offset - 1) as nat))
    }
}

/// The total recorded for `key`: the value of the first entry whose date
/// matches, or zero when none does.
pub open spec fn spec_day_total(totals: Seq<(Seq<char>, i64)>, key: Seq<char>) -> i64
    decreases totals.len(),
{
    if totals.len() == 0 {
        0
    } else if totals[0].0 == key {
        totals[0].1
    } else {
        spec_day_total(totals.subrange(1, totals.len() as int), key)
    }
}

fn day_total(totals: &Vec<(String, i64)>, key: &str) -> (r: i64)
    ensures
        r == spec_day_total(totals@.map_values(|p: (String, i64)| (p.0@, p.1)), key@),
{
    let ghost m = totals@.map_values(|p: (String, i64)| (p.0@, p.1));
    let mut i: usize = 0;
    proof {
        assert(m.subrange(0, m.len() as int) =~= m);
    }
    while i < totals.len()
        invariant
            i <= totals.len(),
            m == totals@.map_values(|p: (String, i64)| (p.0@, p.1)),
            spec_day_total(m, key@) == spec_day_total(m.subrange(i as int, m.len() as int), key@),
        decreases totals.len() - i,
    {
        proof {
            let rest = m.subrange(i as int, m.len() as int);
            assert(rest[0] == m[i as int]);
            assert(rest.subrange(1, rest.len() as int) =~= m.subrange(
                i as int + 1,
                m.len() as int,
            ));
        }
        if crate::strutil::str_eq(totals[i].0.as_str(), key) {
            return totals[i].1;
        }
        i += 1;
    }
    proof {
        assert(m.subrange(i as int, m.len() as int).len() == 0);
    }
    0
}

/// Lay out the dashboard's week: seven consecutive days starting at
/// `week_start`, each with the total recorded for that day, and zero for
/// days with no entry.
pub fn build_weekly_series(week_start: Date, totals_by_day: &Vec<(String, i64)>) -> (r: Vec<
    WeeklySpendingPoint,
>)
    requires
        valid_date(week_start),
        week_start.year < 9999,
    ensures
        r@.len() == 7,
        forall|i: int|
            0 <= i < 7 ==> #[trigger] r@[i].date@ == spec_date_string(
                spec_day_at(week_start, i as nat),
            ),
        forall|i: int|
            0 <= i < 7 ==> #[trigger] r@[i].amount_cents == spec_day_total(
                totals_by_day@.map_values(|p: (String, i64)| (p.0@, p.1)),
                spec_date_string(spec_day_at(week_start, i as nat)),
            ),
{
    let mut series: Vec<WeeklySpendingPoint> = Vec::new();
    let mut date = week_start;
    let mut offset: usize = 0;
    while offset < 7
        invariant
            offset <= 7,
            valid_date(date),
            date == spec_day_at(week_start, offset as nat),
            valid_date(week_start),
            week_start.year < 9999,
            date.year == week_start.year || (date.year == week_start.year + 1 && date.month == 1
                && date.day as int <= offset as int),
            series@.len() == offset,
            forall|i: int|
                0 <= i < offset ==> #[trigger] series@[i].date@ == spec_date_string(
                    spec_day_at(week_start, i as nat),
                ),
            forall|i: int|
                0 <= i < offset ==> #[trigger] series@[i].amount_cents == spec_day_total(
                    totals_by_day@.map_values(|p: (String, i64)| (p.0@, p.1)),
                    spec_date_string(spec_day_at(week_start, i as nat)),
                ),
        decreases 7 - offset,
    {
        let key = date_string(date);
        let amount = day_total(totals_by_day, key.as_str());
        series.push(WeeklySpendingPoint { date: key, amount_cents: amount });
        date = next_day(date);
        offset += 1;
        proof {
            assert(date == spec_day_at(week_start, offset as nat));
        }
    }
    series
}

} // verus!
