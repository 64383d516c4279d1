//! Savings-goal domain data. Amounts are integer cents. Goal storage and
//! projection arithmetic live outside the verified engine.

use vstd::prelude::*;

verus! {

/// Lifecycle state of a savings goal.
#[derive(Debug, Clone, Copy, PartialEq, Eq, Structural)]
pub enum GoalStatus {
    Active,
    Paused,
    Achieved,
    Abandoned,
}

impl GoalStatus {
    /// The canonical encoding used in storage.
    pub open spec fn spec_as_str(self) -> Seq<char> {
        match self {
            GoalStatus::Active => "active"@,
            GoalStatus::Paused => "paused"@,
            GoalStatus::Achieved => "achieved"@,
            GoalStatus::Abandoned => "abandoned"@,
        }
    }

    pub fn as_str(&self) -> (r: &'static str)
        ensures
            r@ == self.spec_as_str(),
    {
        match self {
            GoalStatus::Active => "active",
            GoalStatus::Paused => "paused",
            GoalStatus::Achieved => "achieved",
            GoalStatus::Abandoned => "abandoned",
        }
    }
}

/// Input for creating a goal.
#[derive(Debug, Clone)]
pub struct CreateGoalInput {
    pub name: String,
    pub target_cents: i64,
    pub target_date: Option<String>,
    pub category_id: Option<String>,
    pub priority: Option<i32>,
    pub status: Option<GoalStatus>,
}

/// Input for updating a goal; absent fields keep their stored value.
#[derive(Debug, Clone)]
pub struct UpdateGoalInput {
    pub id: String,
    pub name: Option<String>,
    pub target_cents: Option<i64>,
    pub target_date: Option<String>,
    pub category_id: Option<String>,
    pub priority: Option<i32>,
    pub status: Option<GoalStatus>,
}

/// Input for moving a goal to another lifecycle state.
#[derive(Debug, Clone)]
pub struct UpdateGoalStatusInput {
    pub id: String,
    pub status: GoalStatus,
}

/// Input for adding cents toward a goal.
#[derive(Debug, Clone)]
pub struct AddContributionInput {
    pub goal_id: String,
    pub amount_cents: i64,
}

/// Errors of the goal service.
#[derive(Debug)]
pub enum GoalServiceError {
    Database(String),
    NotFound(String),
    Validation(String),
    Internal(String),
}

} // verus!
