//! Report domain data and the report cache's key scheme. Report
//! aggregation itself runs over storage outside the verified engine.

use vstd::prelude::*;

verus! {

/// One point of a daily income/expense trend line.
#[derive(Debug, Clone)]
pub struct TrendPoint {
    pub date: String,
    pub income_cents: i64,
    pub expense_cents: i64,
}

/// Total income against total expenses over a period.
#[derive(Debug, Clone)]
pub struct IncomeVsExpense {
    pub income_cents: i64,
    pub expense_cents: i64,
    pub net_cents: i64,
}

/// One month of an income/expense trend.
#[derive(Debug, Clone)]
pub struct MonthlyTrendDto {
    pub month: String,
    pub income_cents: i64,
    pub expense_cents: i64,
    pub net_cents: i64,
}

/// Errors of the report service.
#[derive(Debug)]
pub enum ReportServiceError {
    Database(String),
    Internal(String),
    Cache(String),
}

/// The report service: scoped to one user; report rows are cached under
/// keys derived from the report type and its parameters.
pub struct SqliteReportService {
    user_id: String,
}

impl SqliteReportService {
    /// The user this service reads reports for.
    pub closed spec fn spec_user_id(&self) -> Seq<char> {
        self.user_id@
    }

    pub fn new(user_id: Option<String>) -> (r: Result<Self, ReportServiceError>)
        ensures
            r is Ok,
            user_id is Some ==> r->Ok_0.spec_user_id() == user_id->Some_0@,
            user_id is None ==> r->Ok_0.spec_user_id() == "seed-user"@,
    {
        match user_id {
            Some(id) => Ok(Self { user_id: id }),
            None => Ok(Self { user_id: String::from_str("seed-user") }),
        }
    }

    /// The cache key for a report: `<type>:<user>:<params>`.
    pub fn get_cache_key(&self, report_type: &str, params: &str) -> (r: String)
        ensures
            r@ == report_type@ + ":"@ + self.spec_user_id() + ":"@ + params@,
    {
        let mut key = String::from_str(report_type);
        key.append(":");
        key.append(self.user_id.as_str());
        key.append(":");
        key.append(params);
        key
    }
}

} // verus!
