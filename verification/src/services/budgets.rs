//! Budget domain data: periods, types, status, snapshots. Amounts are
//! integer cents. Budget storage and progress reporting live outside the
//! verified engine; these types are its shared vocabulary.

use vstd::prelude::*;

verus! {

/// How often a budget resets.
#[derive(Debug, Clone, Copy, PartialEq, Eq, Structural)]
pub enum BudgetPeriod {
    Weekly,
    Monthly,
    Quarterly,
    Yearly,
}

impl BudgetPeriod {
    /// The canonical encoding used in storage.
    pub open spec fn spec_as_str(self) -> Seq<char> {
        match self {
            BudgetPeriod::Weekly => "weekly"@,
            BudgetPeriod::Monthly => "monthly"@,
            BudgetPeriod::Quarterly => "quarterly"@,
            BudgetPeriod::Yearly => "yearly"@,
        }
    }

    pub fn as_str(&self) -> (r: &'static str)
        ensures
            r@ == self.spec_as_str(),
    {
        match self {
            BudgetPeriod::Weekly => "weekly",
            BudgetPeriod::Monthly => "monthly",
            BudgetPeriod::Quarterly => "quarterly",
            BudgetPeriod::Yearly => "yearly",
        }
    }
}

/// Whether a budget covers one category envelope or overall spending.
#[derive(Debug, Clone, Copy, PartialEq, Eq, Structural)]
pub enum BudgetType {
    Envelope,
    Overall,
}

impl BudgetType {
    /// The canonical encoding used in storage.
    pub open spec fn spec_as_str(self) -> Seq<char> {
        match self {
            BudgetType::Envelope => "envelope"@,
            BudgetType::Overall => "overall"@,
        }
    }

    pub fn as_str(&self) -> (r: &'static str)
        ensures
            r@ == self.spec_as_str(),
    {
        match self {
            BudgetType::Envelope => "envelope",
            BudgetType::Overall => "overall",
        }
    }
}

/// How a budget is doing against its target.
#[derive(Debug, Clone, Copy, PartialEq, Eq, Structural)]
pub enum BudgetStatus {
    Normal,
    AtRisk,
    Over,
}

/// One recorded budget snapshot: actual and projected cents on a date.
#[derive(Debug, Clone)]
pub struct BudgetEntryDto {
    pub id: String,
    pub budget_id: String,
    pub actual_cents: i64,
    pub projected_cents: i64,
    pub snapshot_date: String,
    pub created_at: String,
}

/// Input for recording a budget snapshot.
#[derive(Debug, Clone)]
pub struct RecordSnapshotInput {
    pub budget_id: String,
    pub actual_cents: i64,
    pub projected_cents: i64,
    pub snapshot_date: String,
}

/// Errors of the budget service.
#[derive(Debug)]
pub enum BudgetServiceError {
    Database(String),
    NotFound(String),
    Validation(String),
    Internal(String),
}

} // verus!
