//! The planning service: monthly plans with their planned incomes,
//! expenses and savings; debt accounts; the amortization schedule
//! generator; and payment confirmation, which bridges a paid installment
//! into the ledger. All money is integer cents; interest rates are basis
//! points (one hundredth of a percent) per year.

use vstd::prelude::*;

use crate::calendar::{
    date_string, days_from_civil, due_date_in_month, next_month, spec_date_string,
    spec_due_date_in_month, spec_next_month, valid_date, Date,
};
use crate::database::{
    db_same_except_debts, db_same_except_engine, db_same_except_planning, db_wf,
    same_schedule_key, Database,
};
use crate::interop::fresh_uuid;
use crate::services::ServiceDescriptor;
use crate::strutil::view_opt_str;

verus! {

/// Largest amount of money, in cents, the engine accepts: one trillion
/// cents. Keeps every interest product inside `i64`.
pub const MAX_MONEY_CENTS: i64 = 1_000_000_000_000;

/// Largest annual interest rate, in basis points: ten thousand percent.
pub const MAX_RATE_BPS: i64 = 1_000_000;

/// Errors of the planning service.
#[derive(Debug)]
pub enum PlanningError {
    Database(String),
    Validation(String),
}

pub type PlanningResult<T> = Result<T, PlanningError>;

/// A month's plan with its rolled-up totals, in cents.
#[derive(Debug)]
pub struct MonthlyPlanDto {
    pub id: String,
    pub month: String,
    pub total_planned_income_cents: i64,
    pub total_planned_expenses_cents: i64,
    pub total_planned_savings_cents: i64,
    pub note: Option<String>,
}

/// Input for creating a monthly plan. `month` is the plan month's first
/// day as `YYYY-MM-DD`.
#[derive(Debug, Clone)]
pub struct CreateMonthlyPlanInput {
    pub month: String,
    pub total_planned_income_cents: Option<i64>,
    pub total_planned_expenses_cents: Option<i64>,
    pub total_planned_savings_cents: Option<i64>,
    pub note: Option<String>,
}

/// Input for adding a planned income line to a plan.
#[derive(Debug, Clone)]
pub struct AddPlannedIncomeInput {
    pub monthly_plan_id: String,
    pub source_name: String,
    pub kind: String,
    pub expected_amount_cents: i64,
    pub expected_date: Option<String>,
    pub is_fixed: Option<bool>,
    pub account_id: Option<String>,
}

/// Input for updating a planned income line; absent fields keep their
/// stored value.
#[derive(Debug, Clone)]
pub struct UpdatePlannedIncomeInput {
    pub id: String,
    pub source_name: Option<String>,
    pub kind: Option<String>,
    pub expected_amount_cents: Option<i64>,
    pub expected_date: Option<String>,
    pub is_fixed: Option<bool>,
    pub account_id: Option<String>,
    pub actual_amount_cents: Option<i64>,
    pub status: Option<String>,
}

/// Input for deleting a planned income line.
#[derive(Debug, Clone)]
pub struct DeletePlannedIncomeInput {
    pub id: String,
}

/// A planned income line as shown to callers.
#[derive(Debug)]
pub struct PlannedIncomeDto {
    pub id: String,
    pub source_name: String,
    pub kind: String,
    pub expected_amount_cents: i64,
    pub actual_amount_cents: i64,
    pub expected_date: Option<String>,
    pub account_id: Option<String>,
    pub status: String,
}

/// Input for adding a planned expense line to a plan.
#[derive(Debug, Clone)]
pub struct AddPlannedExpenseInput {
    pub monthly_plan_id: String,
    pub label: String,
    pub category_id: Option<String>,
    pub expected_amount_cents: i64,
    pub frequency: Option<String>,
}

/// Input for updating a planned expense line; absent fields keep their
/// stored value.
#[derive(Debug, Clone)]
pub struct UpdatePlannedExpenseInput {
    pub id: String,
    pub label: Option<String>,
    pub category_id: Option<String>,
    pub expected_amount_cents: Option<i64>,
    pub frequency: Option<String>,
    pub actual_amount_cents: Option<i64>,
}

/// Input for deleting a planned expense line.
#[derive(Debug, Clone)]
pub struct DeletePlannedExpenseInput {
    pub id: String,
}

/// A planned expense line as shown to callers.
#[derive(Debug)]
pub struct PlannedExpenseDto {
    pub id: String,
    pub label: String,
    pub expected_amount_cents: i64,
    pub actual_amount_cents: i64,
    pub category_id: Option<String>,
    pub frequency: String,
}

/// Input for adding a planned saving line to a plan.
#[derive(Debug, Clone)]
pub struct AddPlannedSavingInput {
    pub monthly_plan_id: String,
    pub goal_id: Option<String>,
    pub expected_amount_cents: i64,
}

/// Input for updating a planned saving line; absent fields keep their
/// stored value.
#[derive(Debug, Clone)]
pub struct UpdatePlannedSavingInput {
    pub id: String,
    pub goal_id: Option<String>,
    pub expected_amount_cents: Option<i64>,
    pub actual_amount_cents: Option<i64>,
}

/// Input for deleting a planned saving line.
#[derive(Debug, Clone)]
pub struct DeletePlannedSavingInput {
    pub id: String,
}

/// A planned saving line as shown to callers.
#[derive(Debug)]
pub struct PlannedSavingDto {
    pub id: String,
    pub goal_id: Option<String>,
    pub expected_amount_cents: i64,
    pub actual_amount_cents: i64,
}

/// A planned income line together with the plan it belongs to.
#[derive(Debug)]
pub struct PlannedIncomeRow {
    pub plan_id: String,
    pub item: PlannedIncomeDto,
}

/// A planned expense line together with the plan it belongs to.
#[derive(Debug)]
pub struct PlannedExpenseRow {
    pub plan_id: String,
    pub item: PlannedExpenseDto,
}

/// A planned saving line together with the plan it belongs to.
#[derive(Debug)]
pub struct PlannedSavingRow {
    pub plan_id: String,
    pub item: PlannedSavingDto,
}

/// Input for adding a debt account.
#[derive(Debug, Clone)]
pub struct AddDebtAccountInput {
    pub name: String,
    pub kind: String,
    pub principal_cents: i64,
    pub interest_rate_bps: i64,
    pub min_monthly_payment_cents: i64,
    pub due_day: i32,
    pub start_date: Date,
}

/// Input for updating a debt account; absent fields keep their stored
/// value.
#[derive(Debug, Clone)]
pub struct UpdateDebtAccountInput {
    pub id: String,
    pub name: Option<String>,
    pub kind: Option<String>,
    pub principal_cents: Option<i64>,
    pub interest_rate_bps: Option<i64>,
    pub min_monthly_payment_cents: Option<i64>,
    pub due_day: Option<i32>,
    pub current_balance_cents: Option<i64>,
}

/// Input for deleting a debt account.
#[derive(Debug, Clone)]
pub struct DeleteDebtAccountInput {
    pub id: String,
}

/// A debt account: an owed balance and its repayment terms.
#[derive(Debug)]
pub struct DebtAccountDto {
    pub id: String,
    pub name: String,
    pub kind: String,
    pub principal_cents: i64,
    pub interest_rate_bps: i64,
    pub min_monthly_payment_cents: i64,
    pub due_day: i32,
    pub start_date: Date,
    pub current_balance_cents: i64,
}

/// One projected installment of a debt's repayment schedule.
#[derive(Debug)]
pub struct DebtScheduleDto {
    pub id: String,
    pub debt_account_id: String,
    pub due_date: Date,
    pub planned_payment_cents: i64,
    pub planned_interest_cents: i64,
    pub planned_principal_cents: i64,
    pub is_paid: bool,
    pub transaction_id: Option<String>,
}

/// Planned against actual figures for one monthly plan, in cents.
#[derive(Debug, Clone)]
pub struct PlanActualSummary {
    pub plan_id: String,
    pub planned_income_cents: i64,
    pub actual_income_cents: i64,
    pub planned_expenses_cents: i64,
    pub actual_expenses_cents: i64,
    pub planned_savings_cents: i64,
    pub actual_savings_cents: i64,
}

/// Input for generating a debt's schedule some months ahead.
#[derive(Debug, Clone)]
pub struct GenerateDebtScheduleInput {
    pub debt_account_id: String,
    pub months: Option<u32>,
}

/// Input for confirming that an installment was paid.
#[derive(Debug, Clone)]
pub struct ConfirmDebtPaymentInput {
    pub schedule_id: String,
    pub account_id: Option<String>,
    pub category_id: Option<String>,
}

/// The mathematical content of a monthly plan.
pub struct MonthlyPlanView {
    pub id: Seq<char>,
    pub month: Seq<char>,
    pub total_planned_income_cents: i64,
    pub total_planned_expenses_cents: i64,
    pub total_planned_savings_cents: i64,
    pub note: Option<Seq<char>>,
}

impl View for MonthlyPlanDto {
    type V = MonthlyPlanView;

    open spec fn view(&self) -> MonthlyPlanView {
        MonthlyPlanView {
            id: self.id@,
            month: self.month@,
            total_planned_income_cents: self.total_planned_income_cents,
            total_planned_expenses_cents: self.total_planned_expenses_cents,
            total_planned_savings_cents: self.total_planned_savings_cents,
            note: view_opt_str(self.note),
        }
    }
}

impl Clone for MonthlyPlanDto {
    fn clone(&self) -> (r: Self)
        ensures
            r@ == self@,
    {
        MonthlyPlanDto {
            id: self.id.clone(),
            month: self.month.clone(),
            total_planned_income_cents: self.total_planned_income_cents,
            total_planned_expenses_cents: self.total_planned_expenses_cents,
            total_planned_savings_cents: self.total_planned_savings_cents,
            note: crate::strutil::clone_opt_string(&self.note),
        }
    }
}

/// The mathematical content of a planned income line.
pub struct PlannedIncomeView {
    pub id: Seq<char>,
    pub source_name: Seq<char>,
    pub kind: Seq<char>,
    pub expected_amount_cents: i64,
    pub actual_amount_cents: i64,
    pub expected_date: Option<Seq<char>>,
    pub account_id: Option<Seq<char>>,
    pub status: Seq<char>,
}

impl View for PlannedIncomeDto {
    type V = PlannedIncomeView;

    open spec fn view(&self) -> PlannedIncomeView {
        PlannedIncomeView {
            id: self.id@,
            source_name: self.source_name@,
            kind: self.kind@,
            expected_amount_cents: self.expected_amount_cents,
            actual_amount_cents: self.actual_amount_cents,
            expected_date: view_opt_str(self.expected_date),
            account_id: view_opt_str(self.account_id),
            status: self.status@,
        }
    }
}

impl Clone for PlannedIncomeDto {
    fn clone(&self) -> (r: Self)
        ensures
            r@ == self@,
    {
        PlannedIncomeDto {
            id: self.id.clone(),
            source_name: self.source_name.clone(),
            kind: self.kind.clone(),
            expected_amount_cents: self.expected_amount_cents,
            actual_amount_cents: self.actual_amount_cents,
            expected_date: crate::strutil::clone_opt_string(&self.expected_date),
            account_id: crate::strutil::clone_opt_string(&self.account_id),
            status: self.status.clone(),
        }
    }
}

/// The mathematical content of a planned expense line.
pub struct PlannedExpenseView {
    pub id: Seq<char>,
    pub label: Seq<char>,
    pub expected_amount_cents: i64,
    pub actual_amount_cents: i64,
    pub category_id: Option<Seq<char>>,
    pub frequency: Seq<char>,
}

impl View for PlannedExpenseDto {
    type V = PlannedExpenseView;

    open spec fn view(&self) -> PlannedExpenseView {
        PlannedExpenseView {
            id: self.id@,
            label: self.label@,
            expected_amount_cents: self.expected_amount_cents,
            actual_amount_cents: self.actual_amount_cents,
            category_id: view_opt_str(self.category_id),
            frequency: self.frequency@,
        }
    }
}

impl Clone for PlannedExpenseDto {
    fn clone(&self) -> (r: Self)
        ensures
            r@ == self@,
    {
        PlannedExpenseDto {
            id: self.id.clone(),
            label: self.label.clone(),
            expected_amount_cents: self.expected_amount_cents,
            actual_amount_cents: self.actual_amount_cents,
            category_id: crate::strutil::clone_opt_string(&self.category_id),
            frequency: self.frequency.clone(),
        }
    }
}

/// The mathematical content of a planned saving line.
pub struct PlannedSavingView {
    pub id: Seq<char>,
    pub goal_id: Option<Seq<char>>,
    pub expected_amount_cents: i64,
    pub actual_amount_cents: i64,
}

impl View for PlannedSavingDto {
    type V = PlannedSavingView;

    open spec fn view(&self) -> PlannedSavingView {
        PlannedSavingView {
            id: self.id@,
            goal_id: view_opt_str(self.goal_id),
            expected_amount_cents: self.expected_amount_cents,
            actual_amount_cents: self.actual_amount_cents,
        }
    }
}

impl Clone for PlannedSavingDto {
    fn clone(&self) -> (r: Self)
        ensures
            r@ == self@,
    {
        PlannedSavingDto {
            id: self.id.clone(),
            goal_id: crate::strutil::clone_opt_string(&self.goal_id),
            expected_amount_cents: self.expected_amount_cents,
            actual_amount_cents: self.actual_amount_cents,
        }
    }
}

/// The mathematical content of a planned line row: the plan it belongs
/// to and the line itself.
pub struct PlanRowView<V> {
    pub plan_id: Seq<char>,
    pub item: V,
}

impl View for PlannedIncomeRow {
    type V = PlanRowView<PlannedIncomeView>;

    open spec fn view(&self) -> PlanRowView<PlannedIncomeView> {
        PlanRowView { plan_id: self.plan_id@, item: self.item@ }
    }
}

impl View for PlannedExpenseRow {
    type V = PlanRowView<PlannedExpenseView>;

    open spec fn view(&self) -> PlanRowView<PlannedExpenseView> {
        PlanRowView { plan_id: self.plan_id@, item: self.item@ }
    }
}

impl View for PlannedSavingRow {
    type V = PlanRowView<PlannedSavingView>;

    open spec fn view(&self) -> PlanRowView<PlannedSavingView> {
        PlanRowView { plan_id: self.plan_id@, item: self.item@ }
    }
}

/// The mathematical content of a debt account.
pub struct DebtAccountView {
    pub id: Seq<char>,
    pub name: Seq<char>,
    pub kind: Seq<char>,
    pub principal_cents: i64,
    pub interest_rate_bps: i64,
    pub min_monthly_payment_cents: i64,
    pub due_day: i32,
    pub start_date: Date,
    pub current_balance_cents: i64,
}

impl View for DebtAccountDto {
    type V = DebtAccountView;

    open spec fn view(&self) -> DebtAccountView {
        DebtAccountView {
            id: self.id@,
            name: self.name@,
            kind: self.kind@,
            principal_cents: self.principal_cents,
            interest_rate_bps: self.interest_rate_bps,
            min_monthly_payment_cents: self.min_monthly_payment_cents,
            due_day: self.due_day,
            start_date: self.start_date,
            current_balance_cents: self.current_balance_cents,
        }
    }
}

impl Clone for DebtAccountDto {
    fn clone(&self) -> (r: Self)
        ensures
            r@ == self@,
    {
        DebtAccountDto {
            id: self.id.clone(),
            name: self.name.clone(),
            kind: self.kind.clone(),
            principal_cents: self.principal_cents,
            interest_rate_bps: self.interest_rate_bps,
            min_monthly_payment_cents: self.min_monthly_payment_cents,
            due_day: self.due_day,
            start_date: self.start_date,
            current_balance_cents: self.current_balance_cents,
        }
    }
}

/// The mathematical content of a schedule row.
pub struct DebtScheduleView {
    pub id: Seq<char>,
    pub debt_account_id: Seq<char>,
    pub due_date: Date,
    pub planned_payment_cents: i64,
    pub planned_interest_cents: i64,
    pub planned_principal_cents: i64,
    pub is_paid: bool,
    pub transaction_id: Option<Seq<char>>,
}

impl View for DebtScheduleDto {
    type V = DebtScheduleView;

    open spec fn view(&self) -> DebtScheduleView {
        DebtScheduleView {
            id: self.id@,
            debt_account_id: self.debt_account_id@,
            due_date: self.due_date,
            planned_payment_cents: self.planned_payment_cents,
            planned_interest_cents: self.planned_interest_cents,
            planned_principal_cents: self.planned_principal_cents,
            is_paid: self.is_paid,
            transaction_id: view_opt_str(self.transaction_id),
        }
    }
}

impl Clone for DebtScheduleDto {
    fn clone(&self) -> (r: Self)
        ensures
            r@ == self@,
    {
        DebtScheduleDto {
            id: self.id.clone(),
            debt_account_id: self.debt_account_id.clone(),
            due_date: self.due_date,
            planned_payment_cents: self.planned_payment_cents,
            planned_interest_cents: self.planned_interest_cents,
            planned_principal_cents: self.planned_principal_cents,
            is_paid: self.is_paid,
            transaction_id: crate::strutil::clone_opt_string(&self.transaction_id),
        }
    }
}

/// A well-formed debt account: a due day the calendar has, a non-negative
/// rate, and money fields inside the engine's range.
pub open spec fn debt_wf(d: DebtAccountView) -> bool {
    &&& 1 <= d.due_day <= 31
    &&& 0 <= d.principal_cents <= MAX_MONEY_CENTS
    &&& 0 <= d.interest_rate_bps <= MAX_RATE_BPS
    &&& 0 <= d.min_monthly_payment_cents <= MAX_MONEY_CENTS
    &&& 0 <= d.current_balance_cents <= MAX_MONEY_CENTS
    &&& valid_date(d.start_date)
}

/// A well-formed schedule row: a real calendar date and non-negative
/// money fields, with the payment inside the engine's range.
pub open spec fn schedule_wf(s: DebtScheduleView) -> bool {
    &&& valid_date(s.due_date)
    &&& 0 <= s.planned_payment_cents <= MAX_MONEY_CENTS
    &&& 0 <= s.planned_interest_cents
    &&& 0 <= s.planned_principal_cents <= MAX_MONEY_CENTS
}

/// A well-formed planned line: amounts inside the engine's range.
pub open spec fn planned_amounts_wf(expected: i64, actual: i64) -> bool {
    &&& 0 <= expected <= MAX_MONEY_CENTS
    &&& 0 <= actual <= MAX_MONEY_CENTS
}

/// The planning service, scoped to one user. Every operation works on a
/// [`Database`] value handed in by the caller.
#[derive(Debug, Clone)]
pub struct PlanningService {
    user_id: String,
}

impl PlanningService {
    /// The user this service plans for.
    pub closed spec fn spec_user_id(&self) -> Seq<char> {
        self.user_id@
    }

    pub fn new(user_id: String) -> (r: PlanningResult<Self>)
        ensures
            r is Ok,
            r->Ok_0.spec_user_id() == user_id@,
    {
        Ok(Self { user_id })
    }

    pub fn descriptor(&self) -> (r: ServiceDescriptor)
        ensures
            r.name@ == "PlanningService"@,
            r.provider@ == "sqlite"@,
    {
        ServiceDescriptor::new("PlanningService", "sqlite")
    }
}


/// The first stored debt account carrying `id`, if any.
pub open spec fn spec_find_debt(ds: Seq<DebtAccountView>, id: Seq<char>) -> Option<DebtAccountView>
    decreases ds.len(),
{
    if ds.len() == 0 {
        None
    } else if ds[0].id == id {
        Some(ds[0])
    } else {
        spec_find_debt(ds.subrange(1, ds.len() as int), id)
    }
}

/// Whether a debt input is acceptable: a due day the calendar has, a
/// non-negative rate, and money fields inside the engine's range.
pub open spec fn spec_add_debt_ok(input: AddDebtAccountInput) -> bool {
    &&& 1 <= input.due_day <= 31
    &&& 0 <= input.principal_cents <= MAX_MONEY_CENTS
    &&& 0 <= input.interest_rate_bps <= MAX_RATE_BPS
    &&& 0 <= input.min_monthly_payment_cents <= MAX_MONEY_CENTS
    &&& valid_date(input.start_date)
}

/// The debt account an update call settles on: fields of the input
/// override the first matching row's fields.
pub open spec fn spec_merged_debt(existing: DebtAccountView, input: UpdateDebtAccountInput) -> DebtAccountView {
    DebtAccountView {
        id: existing.id,
        name: match input.name {
            Option::Some(n) => n@,
            Option::None => existing.name,
        },
        kind: match input.kind {
            Option::Some(k) => k@,
            Option::None => existing.kind,
        },
        principal_cents: match input.principal_cents {
            Option::Some(p) => p,
            Option::None => existing.principal_cents,
        },
        interest_rate_bps: match input.interest_rate_bps {
            Option::Some(r) => r,
            Option::None => existing.interest_rate_bps,
        },
        min_monthly_payment_cents: match input.min_monthly_payment_cents {
            Option::Some(m) => m,
            Option::None => existing.min_monthly_payment_cents,
        },
        due_day: match input.due_day {
            Option::Some(d) => d,
            Option::None => existing.due_day,
        },
        start_date: existing.start_date,
        current_balance_cents: match input.current_balance_cents {
            Option::Some(b) => b,
            Option::None => existing.current_balance_cents,
        },
    }
}

impl PlanningService {
    /// The index of the first stored debt account with `id`.
    fn find_debt_index(&self, debts: &Vec<DebtAccountDto>, id: &str) -> (r: Option<usize>)
        ensures
            ({
                let views = debts@.map_values(|x: DebtAccountDto| x@);
                match r {
                    Option::Some(ix) => {
                        &&& ix < views.len()
                        &&& views[ix as int].id == id@
                        &&& spec_find_debt(views, id@) == Some(views[ix as int])
                        &&& forall|j: int| 0 <= j < ix ==> (#[trigger] views[j]).id != id@
                    },
                    Option::None => {
                        &&& spec_find_debt(views, id@) is None
                        &&& forall|j: int| 0 <= j < views.len() ==> (#[trigger] views[j]).id != id@
                    },
                }
            }),
    {
        let ghost views = debts@.map_values(|x: DebtAccountDto| x@);
        let mut i: usize = 0;
        proof {
            assert(views.subrange(0, views.len() as int) =~= views);
        }
        while i < debts.len()
            invariant
                i <= debts@.len(),
                views == debts@.map_values(|x: DebtAccountDto| x@),
                spec_find_debt(views, id@) == spec_find_debt(
                    views.subrange(i as int, views.len() as int),
                    id@,
                ),
                forall|j: int| 0 <= j < i ==> (#[trigger] views[j]).id != id@,
            decreases debts@.len() - i,
        {
            proof {
                let rest = views.subrange(i as int, views.len() as int);
                assert(rest[0] == views[i as int]);
                assert(rest.subrange(1, rest.len() as int) =~= views.subrange(
                    i as int + 1,
                    views.len() as int,
                ));
            }
            if crate::strutil::str_eq(debts[i].id.as_str(), id) {
                return Some(i);
            }
            i += 1;
        }
        proof {
            assert(views.subrange(i as int, views.len() as int).len() == 0);
        }
        None
    }

    /// Add a debt account. Its opening balance is the principal.
    pub fn add_debt_account(&self, db: &mut Database, input: AddDebtAccountInput) -> (r:
        PlanningResult<DebtAccountDto>)
        requires
            db_wf(*old(db)),
        ensures
            db_wf(*final(db)),
            db_same_except_debts(*old(db), *final(db)),
            final(db).schedules@ == old(db).schedules@,
            r is Ok <==> spec_add_debt_ok(input),
            r matches Err(e) ==> e is Validation && *final(db) == *old(db),
            r matches Ok(d) ==> ({
                &&& d@.name == input.name@
                &&& d@.kind == input.kind@
                &&& d@.principal_cents == input.principal_cents
                &&& d@.interest_rate_bps == input.interest_rate_bps
                &&& d@.min_monthly_payment_cents == input.min_monthly_payment_cents
                &&& d@.due_day == input.due_day
                &&& d@.start_date == input.start_date
                &&& d@.current_balance_cents == input.principal_cents
                &&& final(db).debts_v() == old(db).debts_v().push(d@)
            }),
    {
        let valid = input.interest_rate_bps >= 0 && input.due_day >= 1 && input.due_day <= 31
            && input.principal_cents >= 0 && input.principal_cents <= MAX_MONEY_CENTS
            && input.interest_rate_bps <= MAX_RATE_BPS && input.min_monthly_payment_cents >= 0
            && input.min_monthly_payment_cents <= MAX_MONEY_CENTS && crate::calendar::check_valid_date(
            input.start_date,
        );
        if !valid {
            return Err(PlanningError::Validation(String::from_str("invalid debt input")));
        }
        let id = fresh_uuid();
        let stored = DebtAccountDto {
            id: id,
            name: input.name,
            kind: input.kind,
            principal_cents: input.principal_cents,
            interest_rate_bps: input.interest_rate_bps,
            min_monthly_payment_cents: input.min_monthly_payment_cents,
            due_day: input.due_day,
            start_date: input.start_date,
            current_balance_cents: input.principal_cents,
        };
        let result = stored.clone();
        db.debts.push(stored);
        proof {
            assert(db.debts_v() =~= old(db).debts_v().push(result@));
        }
        Ok(result)
    }

    /// Every stored debt account, newest first.
    pub fn list_debts(&self, db: &Database) -> (r: PlanningResult<Vec<DebtAccountDto>>)
        ensures
            r is Ok,
            r->Ok_0@.map_values(|x: DebtAccountDto| x@) == db.debts_v().reverse(),
    {
        let mut out: Vec<DebtAccountDto> = Vec::new();
        let mut i: usize = db.debts.len();
        while i > 0
            invariant
                i <= db.debts@.len(),
                out@.len() == db.debts@.len() - i,
                forall|k: int|
                    0 <= k < out@.len() ==> (#[trigger] out@[k])@ == db.debts_v()[db.debts@.len()
                        - 1 - k],
            decreases i,
        {
            i -= 1;
            out.push(db.debts[i].clone());
        }
        proof {
            assert(out@.map_values(|x: DebtAccountDto| x@) =~= db.debts_v().reverse());
        }
        Ok(out)
    }

    /// Update every stored debt account with the input's identifier.
    /// Fields absent from the input keep the value of the first matching
    /// row; the merged account must still satisfy the debt invariant.
    pub fn update_debt(&self, db: &mut Database, input: UpdateDebtAccountInput) -> (r:
        PlanningResult<DebtAccountDto>)
        requires
            db_wf(*old(db)),
        ensures
            db_wf(*final(db)),
            db_same_except_debts(*old(db), *final(db)),
            final(db).schedules@ == old(db).schedules@,
            ({
                let found = spec_find_debt(old(db).debts_v(), input.id@);
                &&& (r is Ok <==> found is Some && debt_wf(spec_merged_debt(found->Some_0, input)))
                &&& (r matches Err(e) ==> e is Validation && *final(db) == *old(db))
                &&& (r matches Ok(d) ==> {
                    &&& d@ == spec_merged_debt(found->Some_0, input)
                    &&& final(db).debts@.len() == old(db).debts@.len()
                    &&& forall|j: int|
                        0 <= j < old(db).debts@.len() ==> (#[trigger] final(db).debts@[j])@ == (
                        if old(db).debts@[j]@.id == input.id@ {
                            spec_merged_debt(found->Some_0, input)
                        } else {
                            old(db).debts@[j]@
                        })
                })
            }),
    {
        let ix = match self.find_debt_index(&db.debts, input.id.as_str()) {
            Some(ix) => ix,
            None => {
                return Err(PlanningError::Validation(String::from_str("debt not found")));
            },
        };
        let existing = db.debts[ix].clone();
        let merged = DebtAccountDto {
            id: existing.id.clone(),
            name: match &input.name {
                Some(n) => n.clone(),
                None => existing.name.clone(),
            },
            kind: match &input.kind {
                Some(k) => k.clone(),
                None => existing.kind.clone(),
            },
            principal_cents: match input.principal_cents {
                Some(p) => p,
                None => existing.principal_cents,
            },
            interest_rate_bps: match input.interest_rate_bps {
                Some(rate) => rate,
                None => existing.interest_rate_bps,
            },
            min_monthly_payment_cents: match input.min_monthly_payment_cents {
                Some(m) => m,
                None => existing.min_monthly_payment_cents,
            },
            due_day: match input.due_day {
                Some(d) => d,
                None => existing.due_day,
            },
            start_date: existing.start_date,
            current_balance_cents: match input.current_balance_cents {
                Some(b) => b,
                None => existing.current_balance_cents,
            },
        };
        let merged_valid = merged.interest_rate_bps >= 0 && merged.due_day >= 1 && merged.due_day
            <= 31 && merged.principal_cents >= 0 && merged.principal_cents <= MAX_MONEY_CENTS
            && merged.interest_rate_bps <= MAX_RATE_BPS && merged.min_monthly_payment_cents >= 0
            && merged.min_monthly_payment_cents <= MAX_MONEY_CENTS && merged.current_balance_cents
            >= 0 && merged.current_balance_cents <= MAX_MONEY_CENTS;
        if !merged_valid {
            return Err(PlanningError::Validation(String::from_str("invalid debt input")));
        }
        let ghost orig = db.debts@;
        let mut i: usize = 0;
        while i < db.debts.len()
            invariant
                i <= db.debts@.len(),
                db.debts@.len() == orig.len(),
                merged@ == spec_merged_debt(
                    spec_find_debt(old(db).debts_v(), input.id@)->Some_0,
                    input,
                ),
                forall|j: int| i <= j < orig.len() ==> db.debts@[j] == orig[j],
                forall|j: int|
                    0 <= j < i ==> (#[trigger] db.debts@[j])@ == (
                    if orig[j]@.id == input.id@ {
                        merged@
                    } else {
                        orig[j]@
                    }),
                db.schedules@ == old(db).schedules@,
                db.reminders@ == old(db).reminders@,
                db.reminder_logs@ == old(db).reminder_logs@,
                db.transactions@ == old(db).transactions@,
                db.monthly_plans@ == old(db).monthly_plans@,
                db.planned_incomes@ == old(db).planned_incomes@,
                db.planned_expenses@ == old(db).planned_expenses@,
                db.planned_savings@ == old(db).planned_savings@,
            decreases db.debts@.len() - i,
        {
            if crate::strutil::str_eq(db.debts[i].id.as_str(), input.id.as_str()) {
                let new_row = merged.clone();
                db.debts[i] = new_row;
            }
            i += 1;
        }
        Ok(merged)
    }

    /// Delete every stored debt account with the input's identifier; its
    /// schedule rows are kept.
    pub fn delete_debt(&self, db: &mut Database, input: DeleteDebtAccountInput) -> (r:
        PlanningResult<()>)
        requires
            db_wf(*old(db)),
        ensures
            db_wf(*final(db)),
            db_same_except_debts(*old(db), *final(db)),
            final(db).schedules@ == old(db).schedules@,
            r is Ok,
            final(db).debts_v() == old(db).debts_v().filter(
                |dv: DebtAccountView| dv.id != input.id@,
            ),
    {
        let ghost views = old(db).debts_v();
        let ghost pred = |dv: DebtAccountView| dv.id != input.id@;
        let mut kept: Vec<DebtAccountDto> = Vec::new();
        let mut i: usize = 0;
        proof {
            reveal(Seq::filter);
            assert(views.subrange(0, 0) =~= Seq::<DebtAccountView>::empty());
            assert(Seq::<DebtAccountView>::empty().filter(pred)
                =~= Seq::<DebtAccountView>::empty());
        }
        while i < db.debts.len()
            invariant
                i <= db.debts@.len(),
                db.debts@ == old(db).debts@,
                views == old(db).debts_v(),
                pred == (|dv: DebtAccountView| dv.id != input.id@),
                kept@.map_values(|x: DebtAccountDto| x@) == views.subrange(0, i as int).filter(
                    pred,
                ),
            decreases db.debts@.len() - i,
        {
            let ghost prefix = views.subrange(0, i as int);
            let ghost prefix_next = views.subrange(0, i as int + 1);
            proof {
                reveal(Seq::filter);
                assert(prefix_next.drop_last() =~= prefix);
                assert(prefix_next.last() == views[i as int]);
            }
            if !crate::strutil::str_eq(db.debts[i].id.as_str(), input.id.as_str()) {
                kept.push(db.debts[i].clone());
            }
            i += 1;
            proof {
                reveal(Seq::filter);
                assert(kept@.map_values(|x: DebtAccountDto| x@) =~= prefix_next.filter(pred));
            }
        }
        db.debts = kept;
        proof {
            assert(views.subrange(0, views.len() as int) =~= views);
            let filtered = views.filter(pred);
            assert(db.debts_v() =~= filtered);
            assert forall|j: int| 0 <= j < db.debts@.len() implies debt_wf(
                (#[trigger] db.debts@[j])@,
            ) by {
                assert(db.debts@[j]@ == db.debts_v()[j]);
                crate::database::lemma_filter_elements_contained(views, pred, j);
                let dv = filtered[j];
                let k = choose|k: int| 0 <= k < views.len() && views[k] == dv;
                assert(old(db).debts@[k]@ == views[k]);
                assert(debt_wf(old(db).debts@[k]@));
            }
        }
        Ok(())
    }
}


/// Whether a schedule row for this debt already projects this due date.
pub open spec fn has_schedule_for(
    rows: Seq<DebtScheduleView>,
    debt_id: Seq<char>,
    d: Date,
) -> bool {
    exists|i: int|
        0 <= i < rows.len() && (#[trigger] rows[i]).debt_account_id == debt_id && rows[i].due_date
            == d
}

/// Zero for negative amounts; the clamp the generator applies.
pub open spec fn spec_max0(x: int) -> int {
    if x < 0 {
        0
    } else {
        x
    }
}

/// One month's interest in cents: the balance times the annual rate in
/// basis points, over twelve months of ten thousand basis points each,
/// rounded down.
pub open spec fn spec_monthly_interest(balance: int, rate_bps: int) -> int {
    balance * rate_bps / 120000
}

/// One projected installment, with the balance the projection carries
/// forward after it.
pub struct InstallmentModel {
    pub due_date: Date,
    pub payment: int,
    pub interest: int,
    pub principal: int,
    pub balance_after: int,
}

/// The installment the generator emits for one month, given the balance
/// it walked in with.
pub open spec fn spec_step(debt: DebtAccountView, due: Date, balance: int) -> InstallmentModel {
    let interest = spec_max0(spec_monthly_interest(balance, debt.interest_rate_bps as int));
    let principal = spec_max0(debt.min_monthly_payment_cents - interest);
    InstallmentModel {
        due_date: due,
        payment: debt.min_monthly_payment_cents as int,
        interest: interest,
        principal: principal,
        balance_after: spec_max0(balance - principal),
    }
}

/// The installments one generation call emits: walk `n` months from
/// `cursor`; a month whose due date already has a row for this debt is
/// skipped without touching the balance; any other month pays the
/// minimum payment, split into interest on the running balance and
/// principal, both clamped at zero, and the balance shrinks by the
/// principal, clamped at zero.
pub open spec fn spec_gen(
    existing: Seq<DebtScheduleView>,
    debt: DebtAccountView,
    cursor: Date,
    balance: int,
    n: nat,
) -> Seq<InstallmentModel>
    decreases n,
{
    if n == 0 {
        Seq::empty()
    } else {
        let due = spec_due_date_in_month(cursor, debt.due_day as int);
        let rest_cursor = spec_next_month(cursor);
        if has_schedule_for(existing, debt.id, due) {
            spec_gen(existing, debt, rest_cursor, balance, (n - 1) as nat)
        } else {
            let step = spec_step(debt, due, balance);
            seq![step] + spec_gen(existing, debt, rest_cursor, step.balance_after, (n - 1) as nat)
        }
    }
}

/// Where the generation walk starts: this month when the due day has
/// not passed yet today, otherwise next month; always the first of the
/// month.
pub open spec fn spec_start_cursor(today: Date, due_day: int) -> Date {
    if today.day > due_day {
        spec_next_month(Date { year: today.year, month: today.month, day: 1 })
    } else {
        Date { year: today.year, month: today.month, day: 1 }
    }
}

/// The moment a generated installment's companion reminder fires: the
/// due date at 09:00 UTC, in seconds since the epoch.
pub open spec fn spec_due_epoch(d: Date) -> int {
    crate::calendar::spec_days_from_civil(d) * 86400 + 32400
}

/// Whether `rv` is the companion reminder of installment `m` of `debt`:
/// a one-shot toast reminder for the planned payment, due at 09:00 UTC
/// on the installment's due date.
pub open spec fn is_companion(
    rv: crate::services::reminders::ReminderView,
    m: InstallmentModel,
    debt: DebtAccountView,
    user: Seq<char>,
    created_at: int,
) -> bool {
    &&& rv.user_id == user
    &&& rv.title == "Debt payment: "@ + debt.name
    &&& rv.description == Some("Due by "@ + spec_date_string(m.due_date))
    &&& rv.account_id is None
    &&& rv.account_name is None
    &&& rv.amount_cents == Some(m.payment as i64)
    &&& rv.due_at == spec_due_epoch(m.due_date)
    &&& rv.recurrence_rule is None
    &&& rv.next_fire_at == Some(spec_due_epoch(m.due_date) as i64)
    &&& rv.channel is Toast
    &&& rv.snooze_minutes is None
    &&& rv.last_triggered_at is None
    &&& rv.status is Scheduled
    &&& rv.created_at == created_at
}

/// Whether a generated schedule row records installment `m` for `debt`.
pub open spec fn records_installment(
    sv: DebtScheduleView,
    m: InstallmentModel,
    debt: DebtAccountView,
) -> bool {
    &&& sv.debt_account_id == debt.id
    &&& sv.due_date == m.due_date
    &&& sv.planned_payment_cents == m.payment
    &&& sv.planned_interest_cents == m.interest
    &&& sv.planned_principal_cents == m.principal
    &&& sv.is_paid == false
    &&& sv.transaction_id is None
}

impl PlanningService {
    /// Whether a schedule row already exists for this debt and due date.
    fn schedule_exists(&self, schedules: &Vec<DebtScheduleDto>, debt_id: &str, d: Date) -> (r:
        bool)
        ensures
            r == has_schedule_for(schedules@.map_values(|x: DebtScheduleDto| x@), debt_id@, d),
    {
        let ghost views = schedules@.map_values(|x: DebtScheduleDto| x@);
        let mut i: usize = 0;
        while i < schedules.len()
            invariant
                i <= schedules@.len(),
                views == schedules@.map_values(|x: DebtScheduleDto| x@),
                forall|j: int|
                    0 <= j < i ==> !((#[trigger] views[j]).debt_account_id == debt_id@
                        && views[j].due_date == d),
            decreases schedules@.len() - i,
        {
            let row = &schedules[i];
            if crate::strutil::str_eq(row.debt_account_id.as_str(), debt_id) && row.due_date == d {
                proof {
                    assert((#[trigger] views[i as int]).debt_account_id == debt_id@
                        && views[i as int].due_date == d);
                }
                return true;
            }
            i += 1;
        }
        false
    }

    /// Generate up to `months` installments for a debt account, starting
    /// from this month or next depending on whether today's due day has
    /// passed. Months that already have a schedule row are skipped, so
    /// repeated calls add nothing new; each emitted installment persists
    /// a schedule row and a companion reminder.
    #[verifier::rlimit(60)]
    pub fn generate_debt_schedule(
        &self,
        db: &mut Database,
        input: GenerateDebtScheduleInput,
        today: Date,
    ) -> (r: PlanningResult<Vec<DebtScheduleDto>>)
        requires
            db_wf(*old(db)),
            valid_date(today),
            1 <= today.year <= 9000,
        ensures
            db_wf(*final(db)),
            db_same_except_engine(*old(db), *final(db)),
            final(db).transactions@ == old(db).transactions@,
            ({
                let months = (
                match input.months {
                    Option::Some(m) => m,
                    Option::None => 6u32,
                });
                let found = spec_find_debt(old(db).debts_v(), input.debt_account_id@);
                let debt = found->Some_0;
                let model = spec_gen(
                    old(db).schedules_v(),
                    debt,
                    spec_start_cursor(today, debt.due_day as int),
                    debt.current_balance_cents as int,
                    months as nat,
                );
                let out = r->Ok_0@.map_values(|x: DebtScheduleDto| x@);
                let old_rems = old(db).reminders_v().len() as int;
                &&& (r is Ok <==> months <= 600 && found is Some)
                &&& (r matches Err(e) ==> e is Validation && *final(db) == *old(db))
                &&& (r is Ok ==> {
                    &&& out.len() == model.len()
                    &&& (forall|j: int|
                        0 <= j < model.len() ==> records_installment(
                            #[trigger] out[j],
                            model[j],
                            debt,
                        ))
                    &&& final(db).schedules_v() == old(db).schedules_v() + out
                    &&& final(db).reminders_v().len() == old_rems + model.len()
                    &&& final(db).reminders_v().subrange(0, old_rems) == old(db).reminders_v()
                    &&& (forall|j: int|
                        0 <= j < model.len() ==> is_companion(
                            #[trigger] final(db).reminders_v()[old_rems + j],
                            model[j],
                            debt,
                            self.spec_user_id(),
                            crate::calendar::spec_days_from_civil(today) * 86400,
                        ))
                })
            }),
    {
        let months_u32: u32 = match input.months {
            Some(m) => m,
            None => 6,
        };
        if months_u32 > 600 {
            return Err(PlanningError::Validation(String::from_str("months is out of range")));
        }
        let ix = match self.find_debt_index(&db.debts, input.debt_account_id.as_str()) {
            Some(ix) => ix,
            None => {
                return Err(PlanningError::Validation(String::from_str("debt not found")));
            },
        };
        let debt = db.debts[ix].clone();
        proof {
            assert(old(db).debts@[ix as int]@ == debt@);
            assert(debt_wf(debt@));
        }
        let months: usize = months_u32 as usize;
        let created_epoch: i64 = days_from_civil(today) * 86400;
        let mut balance: i64 = debt.current_balance_cents;
        let mut cursor: Date = if today.day > debt.due_day as u32 {
            next_month(Date { year: today.year, month: today.month, day: 1 })
        } else {
            Date { year: today.year, month: today.month, day: 1 }
        };
        let ghost existing = old(db).schedules_v();
        let ghost debt_v = debt@;
        let ghost start_cursor = spec_start_cursor(today, debt_v.due_day as int);
        let ghost model = spec_gen(
            existing,
            debt_v,
            start_cursor,
            debt_v.current_balance_cents as int,
            months as nat,
        );
        let ghost user = self.spec_user_id();
        let ghost old_rems = old(db).reminders_v().len() as int;
        let ghost mut done: Seq<InstallmentModel> = Seq::empty();
        let mut out: Vec<DebtScheduleDto> = Vec::new();
        let mut k: usize = 0;
        proof {
            assert(cursor == start_cursor);
            assert(model =~= done + spec_gen(
                existing,
                debt_v,
                cursor,
                balance as int,
                (months - k) as nat,
            ));
            assert(db.schedules_v() =~= existing + out@.map_values(|x: DebtScheduleDto| x@));
            assert(db.reminders_v().subrange(0, old_rems) =~= old(db).reminders_v());
        }
        while k < months
            invariant
                k <= months,
                months <= 600,
                user == self.spec_user_id(),
                debt_wf(debt_v),
                debt_v == debt@,
                1 <= today.year <= 9000,
                valid_date(cursor),
                cursor.day == 1,
                crate::calendar::month_index(cursor) <= crate::calendar::month_index(start_cursor)
                    + k,
                crate::calendar::month_index(start_cursor) <= (today.year + 1) * 12 + 1,
                0 <= balance <= MAX_MONEY_CENTS,
                -70_000_000_000 <= created_epoch <= 260_000_000_000,
                existing == old(db).schedules_v(),
                old_rems == old(db).reminders_v().len() as int,
                model == spec_gen(
                    existing,
                    debt_v,
                    start_cursor,
                    debt_v.current_balance_cents as int,
                    months as nat,
                ),
                model == done + spec_gen(
                    existing,
                    debt_v,
                    cursor,
                    balance as int,
                    (months - k) as nat,
                ),
                out@.len() == done.len(),
                done.len() <= k,
                forall|j: int|
                    0 <= j < done.len() ==> records_installment(
                        (#[trigger] out@[j])@,
                        done[j],
                        debt_v,
                    ),
                forall|j: int|
                    0 <= j < out@.len() ==> crate::calendar::month_index(
                        (#[trigger] out@[j])@.due_date,
                    ) < crate::calendar::month_index(cursor),
                db.schedules_v() == existing + out@.map_values(|x: DebtScheduleDto| x@),
                db.schedules@.len() == existing.len() + out@.len(),
                forall|i2: int, j2: int|
                    0 <= i2 < j2 < db.schedules@.len() ==> !same_schedule_key(
                        (#[trigger] db.schedules@[i2])@,
                        (#[trigger] db.schedules@[j2])@,
                    ),
                forall|i2: int|
                    0 <= i2 < db.schedules@.len() ==> schedule_wf((#[trigger] db.schedules@[i2])@),
                db.reminders_v().len() == old_rems + out@.len(),
                db.reminders_v().subrange(0, old_rems) == old(db).reminders_v(),
                forall|j: int|
                    0 <= j < done.len() ==> is_companion(
                        #[trigger] db.reminders_v()[old_rems + j],
                        done[j],
                        debt_v,
                        user,
                        created_epoch as int,
                    ),
                forall|j: int|
                    0 <= j < db.reminders@.len() ==> crate::services::reminders::reminder_wf(
                        (#[trigger] db.reminders@[j])@,
                    ),
                db.debts@ == old(db).debts@,
                db.reminder_logs@ == old(db).reminder_logs@,
                db.transactions@ == old(db).transactions@,
                db.monthly_plans@ == old(db).monthly_plans@,
                db.planned_incomes@ == old(db).planned_incomes@,
                db.planned_expenses@ == old(db).planned_expenses@,
                db.planned_savings@ == old(db).planned_savings@,
            decreases months - k,
        {
            let ghost rem_n = (months - k) as nat;
            let due = due_date_in_month(cursor, debt.due_day as u32);
            proof {
                assert(debt.due_day as u32 as int == debt_v.due_day as int);
                assert(due == spec_due_date_in_month(cursor, debt_v.due_day as int));
                assert(crate::calendar::month_index(due) == crate::calendar::month_index(cursor));
            }
            let exists_row = self.schedule_exists(&db.schedules, debt.id.as_str(), due);
            proof {
                assert(exists_row == has_schedule_for(existing, debt_v.id, due)) by {
                    let live = db.schedules_v();
                    if has_schedule_for(existing, debt_v.id, due) {
                        let w = choose|i2: int|
                            0 <= i2 < existing.len() && (#[trigger] existing[i2]).debt_account_id
                                == debt_v.id && existing[i2].due_date == due;
                        assert(live[w] == existing[w]);
                        assert(has_schedule_for(live, debt_v.id, due));
                    }
                    if has_schedule_for(live, debt_v.id, due) {
                        let w = choose|i2: int|
                            0 <= i2 < live.len() && (#[trigger] live[i2]).debt_account_id
                                == debt_v.id && live[i2].due_date == due;
                        if w >= existing.len() {
                            let j = w - existing.len();
                            assert(live[w] == out@.map_values(|x: DebtScheduleDto| x@)[j]);
                            assert(crate::calendar::month_index(out@[j]@.due_date)
                                < crate::calendar::month_index(cursor));
                            assert(false);
                        }
                        assert(has_schedule_for(existing, debt_v.id, due));
                    }
                }
            }
            if !exists_row {
                proof {
                    assert(balance * debt.interest_rate_bps >= 0) by (nonlinear_arith)
                        requires
                            balance >= 0,
                            debt.interest_rate_bps >= 0,
                    ;
                    assert(balance * debt.interest_rate_bps <= 1_000_000_000_000_000_000i64)
                        by (nonlinear_arith)
                        requires
                            0 <= balance <= 1_000_000_000_000i64,
                            0 <= debt.interest_rate_bps <= 1_000_000i64,
                    ;
                }
                let interest: i64 = (balance * debt.interest_rate_bps) / 120000;
                proof {
                    assert(interest >= 0) by (nonlinear_arith)
                        requires
                            interest == balance * debt.interest_rate_bps / 120000,
                            balance * debt.interest_rate_bps >= 0,
                    ;
                }
                let payment: i64 = debt.min_monthly_payment_cents;
                let principal: i64 = if payment >= interest {
                    payment - interest
                } else {
                    0
                };
                let ghost balance_before = balance as int;
                balance = if balance >= principal {
                    balance - principal
                } else {
                    0
                };
                let ghost step = spec_step(debt_v, due, balance_before);
                proof {
                    assert(step.interest == interest);
                    assert(step.principal == principal);
                    assert(step.balance_after == balance as int);
                    assert(spec_gen(existing, debt_v, cursor, balance_before, rem_n) == seq![step]
                        + spec_gen(
                        existing,
                        debt_v,
                        spec_next_month(cursor),
                        step.balance_after,
                        (rem_n - 1) as nat,
                    ));
                }
                let id = fresh_uuid();
                let row = DebtScheduleDto {
                    id: id,
                    debt_account_id: debt.id.clone(),
                    due_date: due,
                    planned_payment_cents: payment,
                    planned_interest_cents: interest,
                    planned_principal_cents: principal,
                    is_paid: false,
                    transaction_id: None,
                };
                let ghost live_pre = db.schedules_v();
                let ghost row_v = row@;
                let stored = row.clone();
                db.schedules.push(stored);
                proof {
                    assert(db.schedules@.len() == live_pre.len() + 1);
                    assert(db.schedules@[live_pre.len() as int]@ == row_v);
                    assert(row_v.debt_account_id == debt_v.id && row_v.due_date == due);
                    assert forall|i2: int, j2: int|
                        0 <= i2 < j2 < db.schedules@.len() implies !same_schedule_key(
                        (#[trigger] db.schedules@[i2])@,
                        (#[trigger] db.schedules@[j2])@,
                    ) by {
                        if j2 == live_pre.len() {
                            assert(db.schedules@[i2]@ == live_pre[i2]);
                            if same_schedule_key(db.schedules@[i2]@, db.schedules@[j2]@) {
                                assert((#[trigger] live_pre[i2]).debt_account_id == debt_v.id
                                    && live_pre[i2].due_date == due);
                                assert(has_schedule_for(live_pre, debt_v.id, due));
                                assert(false);
                            }
                        }
                    }
                }
                let mut title = String::from_str("Debt payment: ");
                title.append(debt.name.as_str());
                let mut description = String::from_str("Due by ");
                let due_text = date_string(due);
                description.append(due_text.as_str());
                let due_epoch: i64 = days_from_civil(due) * 86400 + 32400;
                let companion = crate::services::reminders::ReminderDto {
                    id: fresh_uuid(),
                    user_id: self.user_id.clone(),
                    title: title,
                    description: Some(description),
                    account_id: None,
                    account_name: None,
                    amount_cents: Some(payment),
                    due_at: due_epoch,
                    recurrence_rule: None,
                    next_fire_at: Some(due_epoch),
                    channel: crate::services::reminders::ReminderChannel::Toast,
                    snooze_minutes: None,
                    last_triggered_at: None,
                    status: crate::services::reminders::ReminderStatus::Scheduled,
                    created_at: created_epoch,
                };
                let ghost rem_pre = db.reminders_v();
                let ghost comp_v = companion@;
                db.reminders.push(companion);
                let ghost out_pre = out@;
                out.push(row);
                proof {
                    let ghost done_before = done;
                    done = done.push(step);
                    assert(done_before + (seq![step] + spec_gen(
                        existing,
                        debt_v,
                        spec_next_month(cursor),
                        step.balance_after,
                        (rem_n - 1) as nat,
                    )) =~= done + spec_gen(
                        existing,
                        debt_v,
                        spec_next_month(cursor),
                        step.balance_after,
                        (rem_n - 1) as nat,
                    ));
                    assert forall|j: int|
                        0 <= j < db.schedules@.len() implies #[trigger] db.schedules_v()[j] == (
                        existing + out@.map_values(|x: DebtScheduleDto| x@))[j] by {
                        if j < live_pre.len() {
                            assert(db.schedules_v()[j] == live_pre[j]);
                            assert(live_pre[j] == (existing + out_pre.map_values(
                                |x: DebtScheduleDto| x@,
                            ))[j]);
                            if j >= existing.len() {
                                assert(out_pre.map_values(|x: DebtScheduleDto| x@)[j
                                    - existing.len()] == out@.map_values(
                                    |x: DebtScheduleDto| x@,
                                )[j - existing.len()]);
                            }
                        } else {
                            assert(db.schedules_v()[j] == row_v);
                            assert(out@.map_values(|x: DebtScheduleDto| x@)[j - existing.len()]
                                == row_v);
                        }
                    }
                    assert(db.schedules_v() =~= existing + out@.map_values(
                        |x: DebtScheduleDto| x@,
                    ));
                    assert(db.reminders_v().subrange(0, old_rems) =~= old(db).reminders_v());
                    assert forall|j: int| 0 <= j < done.len() implies is_companion(
                        #[trigger] db.reminders_v()[old_rems + j],
                        done[j],
                        debt_v,
                        user,
                        created_epoch as int,
                    ) by {
                        if j == done.len() - 1 {
                            assert(db.reminders_v()[old_rems + j] == comp_v);
                            assert(done[j] == step);
                            assert(is_companion(comp_v, step, debt_v, user, created_epoch as int));
                        } else {
                            assert(db.reminders_v()[old_rems + j] == rem_pre[old_rems + j]);
                        }
                    }
                }
            }
            k += 1;
            proof {
                assert(crate::calendar::month_index(spec_next_month(cursor))
                    == crate::calendar::month_index(cursor) + 1);
                assert(cursor.year < 9999) by {
                    assert(crate::calendar::month_index(cursor) <= (today.year + 1) * 12 + 1
                        + 600);
                }
            }
            cursor = next_month(cursor);
        }
        proof {
            assert(spec_gen(existing, debt_v, cursor, balance as int, 0) =~= Seq::<
                InstallmentModel,
            >::empty());
            assert(model =~= done);
        }
        Ok(out)
    }
}


/// The first stored schedule row carrying `id`, if any.
pub open spec fn spec_find_schedule(rows: Seq<DebtScheduleView>, id: Seq<char>) -> Option<
    DebtScheduleView,
>
    decreases rows.len(),
{
    if rows.len() == 0 {
        None
    } else if rows[0].id == id {
        Some(rows[0])
    } else {
        spec_find_schedule(rows.subrange(1, rows.len() as int), id)
    }
}

/// One row as a confirmation call leaves it: paid, and carrying the
/// recorded ledger transaction when one was written.
pub open spec fn spec_apply_confirm(
    row: DebtScheduleView,
    txn: Option<Seq<char>>,
) -> DebtScheduleView {
    DebtScheduleView {
        is_paid: true,
        transaction_id: (
        match txn {
            Option::Some(t) => Some(t),
            Option::None => row.transaction_id,
        }),
        ..row
    }
}

impl PlanningService {
    /// Every schedule row of one debt, ordered by due date ascending.
    pub fn list_schedules(&self, db: &Database, debt_id: &str) -> (r: PlanningResult<
        Vec<DebtScheduleDto>,
    >)
        ensures
            r is Ok,
            ({
                let out = r->Ok_0@.map_values(|x: DebtScheduleDto| x@);
                &&& out.to_multiset() == db.schedules_v().filter(
                    |sv: DebtScheduleView| sv.debt_account_id == debt_id@,
                ).to_multiset()
                &&& forall|i: int|
                    0 <= i < out.len() ==> (#[trigger] out[i]).debt_account_id == debt_id@
                &&& forall|i: int, j: int|
                    0 <= i < j < out.len() ==> crate::calendar::date_le(
                        (#[trigger] out[i]).due_date,
                        (#[trigger] out[j]).due_date,
                    )
            }),
    {
        let ghost views = db.schedules_v();
        let ghost pred = |sv: DebtScheduleView| sv.debt_account_id == debt_id@;
        let mut out: Vec<DebtScheduleDto> = Vec::new();
        let mut i: usize = 0;
        proof {
            reveal(Seq::filter);
            broadcast use vstd::seq_lib::group_to_multiset_ensures;

            assert(views.subrange(0, 0) =~= Seq::<DebtScheduleView>::empty());
            assert(Seq::<DebtScheduleView>::empty().filter(pred) =~= Seq::<
                DebtScheduleView,
            >::empty());
            assert(out@.map_values(|x: DebtScheduleDto| x@) =~= Seq::<DebtScheduleView>::empty());
        }
        while i < db.schedules.len()
            invariant
                i <= db.schedules@.len(),
                views == db.schedules_v(),
                pred == (|sv: DebtScheduleView| sv.debt_account_id == debt_id@),
                out@.map_values(|x: DebtScheduleDto| x@).to_multiset() == views.subrange(
                    0,
                    i as int,
                ).filter(pred).to_multiset(),
                forall|k: int|
                    0 <= k < out@.len() ==> (#[trigger] out@[k])@.debt_account_id == debt_id@,
                forall|k: int, l: int|
                    0 <= k < l < out@.len() ==> crate::calendar::date_le(
                        (#[trigger] out@[k])@.due_date,
                        (#[trigger] out@[l])@.due_date,
                    ),
            decreases db.schedules@.len() - i,
        {
            let ghost prefix = views.subrange(0, i as int);
            let ghost prefix_next = views.subrange(0, i as int + 1);
            proof {
                reveal(Seq::filter);
                assert(prefix_next.drop_last() =~= prefix);
                assert(prefix_next.last() == views[i as int]);
            }
            let row = &db.schedules[i];
            if crate::strutil::str_eq(row.debt_account_id.as_str(), debt_id) {
                let x = row.clone();
                let ghost xv = x@;
                let mut pos: usize = 0;
                while pos < out.len() && crate::calendar::date_before_eq(
                    &out[pos].due_date,
                    &x.due_date,
                )
                    invariant
                        pos <= out@.len(),
                        xv == x@,
                        forall|k: int|
                            0 <= k < pos ==> crate::calendar::date_le(
                                (#[trigger] out@[k])@.due_date,
                                xv.due_date,
                            ),
                    decreases out@.len() - pos,
                {
                    pos += 1;
                }
                let ghost out_before = out@;
                out.insert(pos, x);
                proof {
                    broadcast use vstd::seq_lib::group_to_multiset_ensures;

                    crate::database::lemma_insert_to_multiset(
                        out_before.map_values(|y: DebtScheduleDto| y@),
                        pos as int,
                        xv,
                    );
                    assert(out@.map_values(|y: DebtScheduleDto| y@) =~= out_before.map_values(
                        |y: DebtScheduleDto| y@,
                    ).insert(pos as int, xv));
                    assert(prefix_next.filter(pred) =~= prefix.filter(pred).push(xv));
                    assert(prefix.filter(pred).push(xv).to_multiset() =~= prefix.filter(
                        pred,
                    ).to_multiset().insert(xv));
                }
            } else {
                proof {
                    reveal(Seq::filter);
                    assert(prefix_next.filter(pred) =~= prefix.filter(pred));
                }
            }
            i += 1;
        }
        proof {
            assert(views.subrange(0, views.len() as int) =~= views);
        }
        Ok(out)
    }

    /// The index of the first stored schedule row with `id`.
    fn find_schedule_index(&self, schedules: &Vec<DebtScheduleDto>, id: &str) -> (r: Option<usize>)
        ensures
            ({
                let views = schedules@.map_values(|x: DebtScheduleDto| x@);
                match r {
                    Option::Some(ix) => {
                        &&& ix < views.len()
                        &&& views[ix as int].id == id@
                        &&& spec_find_schedule(views, id@) == Some(views[ix as int])
                    },
                    Option::None => spec_find_schedule(views, id@) is None,
                }
            }),
    {
        let ghost views = schedules@.map_values(|x: DebtScheduleDto| x@);
        let mut i: usize = 0;
        proof {
            assert(views.subrange(0, views.len() as int) =~= views);
        }
        while i < schedules.len()
            invariant
                i <= schedules@.len(),
                views == schedules@.map_values(|x: DebtScheduleDto| x@),
                spec_find_schedule(views, id@) == spec_find_schedule(
                    views.subrange(i as int, views.len() as int),
                    id@,
                ),
            decreases schedules@.len() - i,
        {
            proof {
                let rest = views.subrange(i as int, views.len() as int);
                assert(rest[0] == views[i as int]);
                assert(rest.subrange(1, rest.len() as int) =~= views.subrange(
                    i as int + 1,
                    views.len() as int,
                ));
            }
            if crate::strutil::str_eq(schedules[i].id.as_str(), id) {
                return Some(i);
            }
            i += 1;
        }
        proof {
            assert(views.subrange(i as int, views.len() as int).len() == 0);
        }
        None
    }

    /// Confirm that an installment was paid: the schedule row is marked
    /// paid, and when an account is supplied the cash movement is
    /// recorded as an expense transaction on the installment's due date
    /// and linked back to the row.
    pub fn confirm_debt_payment(&self, db: &mut Database, input: ConfirmDebtPaymentInput) -> (r:
        PlanningResult<DebtScheduleDto>)
        requires
            db_wf(*old(db)),
        ensures
            db_wf(*final(db)),
            final(db).debts@ == old(db).debts@,
            final(db).reminders@ == old(db).reminders@,
            final(db).reminder_logs@ == old(db).reminder_logs@,
            final(db).monthly_plans@ == old(db).monthly_plans@,
            final(db).planned_incomes@ == old(db).planned_incomes@,
            final(db).planned_expenses@ == old(db).planned_expenses@,
            final(db).planned_savings@ == old(db).planned_savings@,
            ({
                let found = spec_find_schedule(old(db).schedules_v(), input.schedule_id@);
                &&& (r is Ok <==> found is Some)
                &&& (r matches Err(e) ==> e is Validation && *final(db) == *old(db))
                &&& (r matches Ok(entry) ==> {
                    let txn = entry@.transaction_id;
                    &&& entry@ == spec_apply_confirm(
                        found->Some_0,
                        (
                        if input.account_id is Some {
                            txn
                        } else {
                            Option::<Seq<char>>::None
                        }),
                    )
                    &&& entry@.is_paid
                    &&& (input.account_id is Some ==> txn is Some)
                    &&& final(db).schedules@.len() == old(db).schedules@.len()
                    &&& (forall|j: int|
                        0 <= j < old(db).schedules@.len() ==> (#[trigger] final(db).schedules@[j])@
                            == (
                        if old(db).schedules@[j]@.id == input.schedule_id@ {
                            spec_apply_confirm(
                                old(db).schedules@[j]@,
                                (
                                if input.account_id is Some {
                                    txn
                                } else {
                                    Option::<Seq<char>>::None
                                }),
                            )
                        } else {
                            old(db).schedules@[j]@
                        }))
                    &&& (input.account_id is None ==> final(db).transactions@ == old(
                        db,
                    ).transactions@)
                    &&& (input.account_id is Some ==> {
                        let tv = final(db).transactions_v().last();
                        &&& final(db).transactions_v().len() == old(db).transactions_v().len() + 1
                        &&& final(db).transactions_v().subrange(
                            0,
                            old(db).transactions_v().len() as int,
                        ) == old(db).transactions_v()
                        &&& tv.id == txn->Some_0
                        &&& tv.account_id == input.account_id->Some_0@
                        &&& tv.category_id == crate::strutil::view_opt_str(input.category_id)
                        &&& tv.kind is Expense
                        &&& tv.amount_cents == found->Some_0.planned_payment_cents
                        &&& tv.currency == "GBP"@
                        &&& tv.occurred_on == spec_date_string(found->Some_0.due_date)
                        &&& tv.cleared == true
                        &&& tv.notes is None
                        &&& tv.tags.len() == 0
                        &&& tv.goal_id is None
                    })
                })
            }),
    {
        let ix = match self.find_schedule_index(&db.schedules, input.schedule_id.as_str()) {
            Some(ix) => ix,
            None => {
                return Err(PlanningError::Validation(String::from_str("schedule not found")));
            },
        };
        let schedule = db.schedules[ix].clone();
        let txn_id: Option<String> = match &input.account_id {
            Some(_) => Some(fresh_uuid()),
            None => None,
        };
        let ghost txn_v = crate::strutil::view_opt_str(txn_id);
        let ghost orig = db.schedules@;
        let mut i: usize = 0;
        while i < db.schedules.len()
            invariant
                i <= db.schedules@.len(),
                db.schedules@.len() == orig.len(),
                txn_v == crate::strutil::view_opt_str(txn_id),
                (txn_id is Some <==> input.account_id is Some),
                forall|j: int| i <= j < orig.len() ==> db.schedules@[j] == orig[j],
                forall|j: int|
                    0 <= j < i ==> (#[trigger] db.schedules@[j])@ == (
                    if orig[j]@.id == input.schedule_id@ {
                        spec_apply_confirm(orig[j]@, txn_v)
                    } else {
                        orig[j]@
                    }),
                db.debts@ == old(db).debts@,
                db.reminders@ == old(db).reminders@,
                db.reminder_logs@ == old(db).reminder_logs@,
                db.transactions@ == old(db).transactions@,
                db.monthly_plans@ == old(db).monthly_plans@,
                db.planned_incomes@ == old(db).planned_incomes@,
                db.planned_expenses@ == old(db).planned_expenses@,
                db.planned_savings@ == old(db).planned_savings@,
            decreases db.schedules@.len() - i,
        {
            if crate::strutil::str_eq(db.schedules[i].id.as_str(), input.schedule_id.as_str()) {
                let new_row = ({
                    let row = &db.schedules[i];
                    DebtScheduleDto {
                        id: row.id.clone(),
                        debt_account_id: row.debt_account_id.clone(),
                        due_date: row.due_date,
                        planned_payment_cents: row.planned_payment_cents,
                        planned_interest_cents: row.planned_interest_cents,
                        planned_principal_cents: row.planned_principal_cents,
                        is_paid: true,
                        transaction_id: match &txn_id {
                            Some(t) => Some(t.clone()),
                            None => crate::strutil::clone_opt_string(&row.transaction_id),
                        },
                    }
                });
                db.schedules[i] = new_row;
            }
            i += 1;
        }
        if let Some(account_id) = &input.account_id {
            let tid = match &txn_id {
                Some(t) => t.clone(),
                None => String::new(),
            };
            let txn = crate::services::transactions::TransactionDto {
                id: tid,
                account_id: account_id.clone(),
                account_name: String::new(),
                category_id: crate::strutil::clone_opt_string(&input.category_id),
                category_name: None,
                kind: crate::services::transactions::TransactionKind::Expense,
                amount_cents: schedule.planned_payment_cents,
                currency: String::from_str("GBP"),
                occurred_on: date_string(schedule.due_date),
                cleared: true,
                notes: None,
                tags: Vec::new(),
                goal_id: None,
            };
            db.transactions.push(txn);
            proof {
                assert(db.transactions_v().subrange(0, old(db).transactions_v().len() as int)
                    =~= old(db).transactions_v());
            }
        }
        let result = db.schedules[ix].clone();
        Ok(result)
    }

    /// Generate a debt's schedule from today's date, read from the
    /// system clock.
    pub fn generate_debt_schedule_today(
        &self,
        db: &mut Database,
        input: GenerateDebtScheduleInput,
    ) -> (r: PlanningResult<Vec<DebtScheduleDto>>)
        requires
            db_wf(*old(db)),
        ensures
            db_wf(*final(db)),
            db_same_except_engine(*old(db), *final(db)),
            final(db).transactions@ == old(db).transactions@,
            r matches Err(e) ==> e is Validation,
            r is Ok ==> (exists|today: Date|
                #[trigger] valid_date(today) && spec_gen_outcome(
                    *old(db),
                    *final(db),
                    input,
                    self.spec_user_id(),
                    r->Ok_0@.map_values(|x: DebtScheduleDto| x@),
                    today,
                )),
    {
        let (year, month, day) = crate::interop::utc_today();
        if year < 1 || year > 9000 {
            return Err(
                PlanningError::Validation(String::from_str("today's date is out of range")),
            );
        }
        let today = Date { year, month, day };
        let result = self.generate_debt_schedule(db, input, today);
        match result {
            Ok(rows) => {
                proof {
                    assert(valid_date(today));
                    assert(spec_gen_outcome(
                        *old(db),
                        *final(db),
                        input,
                        self.spec_user_id(),
                        rows@.map_values(|x: DebtScheduleDto| x@),
                        today,
                    ));
                    assert(exists|t: Date|
                        #[trigger] valid_date(t) && spec_gen_outcome(
                            *old(db),
                            *final(db),
                            input,
                            self.spec_user_id(),
                            rows@.map_values(|x: DebtScheduleDto| x@),
                            t,
                        ));
                }
                Ok(rows)
            },
            Err(e) => Err(e),
        }
    }
}

/// What a successful generation call did, seen from outside: the rows it
/// returned record exactly the installments of the projection model for
/// `today`, they were appended to the schedule table, and one companion
/// reminder was appended per row.
pub open spec fn spec_gen_outcome(
    pre: Database,
    post: Database,
    input: GenerateDebtScheduleInput,
    user: Seq<char>,
    out: Seq<DebtScheduleView>,
    today: Date,
) -> bool {
    let months = (
    match input.months {
        Option::Some(m) => m,
        Option::None => 6u32,
    });
    let found = spec_find_debt(pre.debts_v(), input.debt_account_id@);
    let debt = found->Some_0;
    let model = spec_gen(
        pre.schedules_v(),
        debt,
        spec_start_cursor(today, debt.due_day as int),
        debt.current_balance_cents as int,
        months as nat,
    );
    let old_rems = pre.reminders_v().len() as int;
    &&& months <= 600
    &&& found is Some
    &&& out.len() == model.len()
    &&& (forall|j: int|
        0 <= j < model.len() ==> records_installment(#[trigger] out[j], model[j], debt))
    &&& post.schedules_v() == pre.schedules_v() + out
    &&& post.reminders_v().len() == old_rems + model.len()
    &&& post.reminders_v().subrange(0, old_rems) == pre.reminders_v()
    &&& (forall|j: int|
        0 <= j < model.len() ==> is_companion(
            #[trigger] post.reminders_v()[old_rems + j],
            model[j],
            debt,
            user,
            crate::calendar::spec_days_from_civil(today) * 86400,
        ))
}

/// Every amount the generator projects is non-negative: planned
/// interest, planned principal, and the running balance after every
/// installment.
pub proof fn lemma_generation_non_negative(
    existing: Seq<DebtScheduleView>,
    debt: DebtAccountView,
    cursor: Date,
    balance: int,
    n: nat,
)
    requires
        balance >= 0,
    ensures
        forall|j: int|
            0 <= j < spec_gen(existing, debt, cursor, balance, n).len() ==> {
                let m = #[trigger] spec_gen(existing, debt, cursor, balance, n)[j];
                m.interest >= 0 && m.principal >= 0 && m.balance_after >= 0
            },
    decreases n,
{
    if n > 0 {
        let due = spec_due_date_in_month(cursor, debt.due_day as int);
        let rest_cursor = spec_next_month(cursor);
        if has_schedule_for(existing, debt.id, due) {
            lemma_generation_non_negative(existing, debt, rest_cursor, balance, (n - 1) as nat);
            assert(spec_gen(existing, debt, cursor, balance, n) == spec_gen(
                existing,
                debt,
                rest_cursor,
                balance,
                (n - 1) as nat,
            ));
        } else {
            let step = spec_step(debt, due, balance);
            lemma_generation_non_negative(
                existing,
                debt,
                rest_cursor,
                step.balance_after,
                (n - 1) as nat,
            );
            assert forall|j: int|
                0 <= j < spec_gen(existing, debt, cursor, balance, n).len() implies {
                let m = #[trigger] spec_gen(existing, debt, cursor, balance, n)[j];
                m.interest >= 0 && m.principal >= 0 && m.balance_after >= 0
            } by {
                if j > 0 {
                    assert(spec_gen(existing, debt, cursor, balance, n)[j] == spec_gen(
                        existing,
                        debt,
                        rest_cursor,
                        step.balance_after,
                        (n - 1) as nat,
                    )[j - 1]);
                } else {
                    assert(spec_gen(existing, debt, cursor, balance, n)[0] == step);
                }
            }
        }
    }
}

/// A schedule that already projects every due date of a walk makes the
/// walk emit nothing.
proof fn lemma_gen_all_present(
    existing: Seq<DebtScheduleView>,
    full: Seq<DebtScheduleView>,
    debt: DebtAccountView,
    cursor: Date,
    balance: int,
    balance2: int,
    n: nat,
)
    requires
        forall|d: Date|
            has_schedule_for(existing, debt.id, d) ==> #[trigger] has_schedule_for(
                full,
                debt.id,
                d,
            ),
        forall|j: int|
            0 <= j < spec_gen(existing, debt, cursor, balance, n).len()
                ==> #[trigger] has_schedule_for(
                full,
                debt.id,
                spec_gen(existing, debt, cursor, balance, n)[j].due_date,
            ),
    ensures
        spec_gen(full, debt, cursor, balance2, n).len() == 0,
    decreases n,
{
    if n > 0 {
        let due = spec_due_date_in_month(cursor, debt.due_day as int);
        let rest_cursor = spec_next_month(cursor);
        if has_schedule_for(existing, debt.id, due) {
            assert(has_schedule_for(full, debt.id, due));
            assert(spec_gen(existing, debt, cursor, balance, n) == spec_gen(
                existing,
                debt,
                rest_cursor,
                balance,
                (n - 1) as nat,
            ));
            lemma_gen_all_present(
                existing,
                full,
                debt,
                rest_cursor,
                balance,
                balance2,
                (n - 1) as nat,
            );
        } else {
            let step = spec_step(debt, due, balance);
            assert(spec_gen(existing, debt, cursor, balance, n)[0] == step);
            assert(has_schedule_for(
                full,
                debt.id,
                spec_gen(existing, debt, cursor, balance, n)[0].due_date,
            ));
            assert(has_schedule_for(full, debt.id, due));
            assert forall|j: int|
                0 <= j < spec_gen(existing, debt, rest_cursor, step.balance_after, (n - 1) as nat).len()
                    implies #[trigger] has_schedule_for(
                full,
                debt.id,
                spec_gen(existing, debt, rest_cursor, step.balance_after, (n - 1) as nat)[j].due_date,
            ) by {
                assert(spec_gen(existing, debt, cursor, balance, n)[j + 1] == spec_gen(
                    existing,
                    debt,
                    rest_cursor,
                    step.balance_after,
                    (n - 1) as nat,
                )[j]);
            }
            lemma_gen_all_present(
                existing,
                full,
                debt,
                rest_cursor,
                step.balance_after,
                balance2,
                (n - 1) as nat,
            );
        }
    }
}

/// Generation is idempotent: once a call has generated the schedule for
/// `today`, a second call with the same inputs and the same `today`
/// projects nothing new — every due date it would visit already has its
/// row, so its model is empty and it returns zero entries.
pub proof fn lemma_generate_idempotent(
    pre: Database,
    post: Database,
    input: GenerateDebtScheduleInput,
    user: Seq<char>,
    out: Seq<DebtScheduleView>,
    today: Date,
)
    requires
        spec_gen_outcome(pre, post, input, user, out, today),
        post.debts@ == pre.debts@,
    ensures
        ({
            let months = (
            match input.months {
                Option::Some(m) => m,
                Option::None => 6u32,
            });
            let debt = spec_find_debt(post.debts_v(), input.debt_account_id@)->Some_0;
            spec_gen(
                post.schedules_v(),
                debt,
                spec_start_cursor(today, debt.due_day as int),
                debt.current_balance_cents as int,
                months as nat,
            ).len() == 0
        }),
{
    let months = (
    match input.months {
        Option::Some(m) => m,
        Option::None => 6u32,
    });
    assert(post.debts_v() =~= pre.debts_v());
    let debt = spec_find_debt(pre.debts_v(), input.debt_account_id@)->Some_0;
    let cursor = spec_start_cursor(today, debt.due_day as int);
    let balance = debt.current_balance_cents as int;
    let model = spec_gen(pre.schedules_v(), debt, cursor, balance, months as nat);
    let full = post.schedules_v();
    assert forall|d: Date| has_schedule_for(pre.schedules_v(), debt.id, d)
        implies #[trigger] has_schedule_for(full, debt.id, d) by {
        let w = choose|i: int|
            0 <= i < pre.schedules_v().len() && (#[trigger] pre.schedules_v()[i]).debt_account_id
                == debt.id && pre.schedules_v()[i].due_date == d;
        assert(full[w] == pre.schedules_v()[w]);
    }
    assert forall|j: int| 0 <= j < model.len() implies #[trigger] has_schedule_for(
        full,
        debt.id,
        model[j].due_date,
    ) by {
        let w = pre.schedules_v().len() + j;
        assert(full[w as int] == out[j]);
        assert(records_installment(out[j], model[j], debt));
        assert((#[trigger] full[w as int]).debt_account_id == debt.id && full[w as int].due_date
            == model[j].due_date);
    }
    lemma_gen_all_present(
        pre.schedules_v(),
        full,
        debt,
        cursor,
        balance,
        balance,
        months as nat,
    );
}


/// A running total of cents that sticks at the top of the 64-bit range
/// instead of overflowing.
pub open spec fn spec_total_cents(s: Seq<i64>) -> int
    decreases s.len(),
{
    if s.len() == 0 {
        0
    } else {
        let rest = spec_total_cents(s.drop_last());
        if rest + s.last() > i64::MAX {
            i64::MAX as int
        } else {
            rest + s.last()
        }
    }
}

/// The plan's planned income: the expected amounts of its income lines.
pub open spec fn spec_income_total(db: Database, plan: Seq<char>) -> int {
    spec_total_cents(
        db.incomes_v().filter(|r: PlanRowView<PlannedIncomeView>| r.plan_id == plan).map_values(
            |r: PlanRowView<PlannedIncomeView>| r.item.expected_amount_cents,
        ),
    )
}

/// The plan's planned expenses: the expected amounts of its expense
/// lines.
pub open spec fn spec_expense_total(db: Database, plan: Seq<char>) -> int {
    spec_total_cents(
        db.expenses_v().filter(|r: PlanRowView<PlannedExpenseView>| r.plan_id == plan).map_values(
            |r: PlanRowView<PlannedExpenseView>| r.item.expected_amount_cents,
        ),
    )
}

/// The plan's planned savings: the expected amounts of its saving lines.
pub open spec fn spec_saving_total(db: Database, plan: Seq<char>) -> int {
    spec_total_cents(
        db.savings_v().filter(|r: PlanRowView<PlannedSavingView>| r.plan_id == plan).map_values(
            |r: PlanRowView<PlannedSavingView>| r.item.expected_amount_cents,
        ),
    )
}

/// Every plan row carrying `plan` has its three totals set to the given
/// values; other plans are untouched.
pub open spec fn plans_totals_updated(
    pre: Seq<MonthlyPlanView>,
    post: Seq<MonthlyPlanView>,
    plan: Seq<char>,
    income: int,
    expenses: int,
    savings: int,
) -> bool {
    &&& post.len() == pre.len()
    &&& forall|j: int|
        0 <= j < pre.len() ==> #[trigger] post[j] == (
        if pre[j].id == plan {
            MonthlyPlanView {
                total_planned_income_cents: income as i64,
                total_planned_expenses_cents: expenses as i64,
                total_planned_savings_cents: savings as i64,
                ..pre[j]
            }
        } else {
            pre[j]
        })
}

impl PlanningService {
    /// Saturating sum of the expected amounts of a plan's income lines.
    fn income_total(&self, rows: &Vec<PlannedIncomeRow>, plan_id: &str) -> (t: i64)
        requires
            forall|j: int|
                0 <= j < rows@.len() ==> (#[trigger] rows@[j])@.item.expected_amount_cents >= 0,
        ensures
            t as int == spec_total_cents(
                rows@.map_values(|x: PlannedIncomeRow| x@).filter(
                    |r: PlanRowView<PlannedIncomeView>| r.plan_id == plan_id@,
                ).map_values(|r: PlanRowView<PlannedIncomeView>| r.item.expected_amount_cents),
            ),
    {
        let ghost views = rows@.map_values(|x: PlannedIncomeRow| x@);
        let ghost pred = |r: PlanRowView<PlannedIncomeView>| r.plan_id == plan_id@;
        let ghost amount_of = |r: PlanRowView<PlannedIncomeView>| r.item.expected_amount_cents;
        let mut acc: i64 = 0;
        let mut i: usize = 0;
        proof {
            reveal(Seq::filter);
            assert(views.subrange(0, 0) =~= Seq::<PlanRowView<PlannedIncomeView>>::empty());
            assert(Seq::<PlanRowView<PlannedIncomeView>>::empty().filter(pred).map_values(
                amount_of,
            ) =~= Seq::<i64>::empty());
        }
        while i < rows.len()
            invariant
                i <= rows@.len(),
                views == rows@.map_values(|x: PlannedIncomeRow| x@),
                forall|j: int|
                    0 <= j < rows@.len() ==> (#[trigger] rows@[j])@.item.expected_amount_cents
                        >= 0,
                acc >= 0,
                pred == (|r: PlanRowView<PlannedIncomeView>| r.plan_id == plan_id@),
                amount_of == (|r: PlanRowView<PlannedIncomeView>| r.item.expected_amount_cents),
                acc as int == spec_total_cents(
                    views.subrange(0, i as int).filter(pred).map_values(amount_of),
                ),
            decreases rows@.len() - i,
        {
            let ghost prefix = views.subrange(0, i as int);
            let ghost prefix_next = views.subrange(0, i as int + 1);
            proof {
                reveal(Seq::filter);
                assert(prefix_next.drop_last() =~= prefix);
                assert(prefix_next.last() == views[i as int]);
            }
            if crate::strutil::str_eq(rows[i].plan_id.as_str(), plan_id) {
                let x = rows[i].item.expected_amount_cents;
                acc = if acc > i64::MAX - x {
                    i64::MAX
                } else {
                    acc + x
                };
                proof {
                    let mapped = prefix.filter(pred).map_values(amount_of);
                    assert(prefix_next.filter(pred) =~= prefix.filter(pred).push(
                        views[i as int],
                    ));
                    assert(prefix_next.filter(pred).map_values(amount_of) =~= mapped.push(x));
                    assert(mapped.push(x).drop_last() =~= mapped);
                }
            } else {
                proof {
                    reveal(Seq::filter);
                    assert(prefix_next.filter(pred) =~= prefix.filter(pred));
                }
            }
            i += 1;
        }
        proof {
            assert(views.subrange(0, views.len() as int) =~= views);
        }
        acc
    }

    /// Saturating sum of the expected amounts of a plan's expense lines.
    fn expense_total(&self, rows: &Vec<PlannedExpenseRow>, plan_id: &str) -> (t: i64)
        requires
            forall|j: int|
                0 <= j < rows@.len() ==> (#[trigger] rows@[j])@.item.expected_amount_cents >= 0,
        ensures
            t as int == spec_total_cents(
                rows@.map_values(|x: PlannedExpenseRow| x@).filter(
                    |r: PlanRowView<PlannedExpenseView>| r.plan_id == plan_id@,
                ).map_values(|r: PlanRowView<PlannedExpenseView>| r.item.expected_amount_cents),
            ),
    {
        let ghost views = rows@.map_values(|x: PlannedExpenseRow| x@);
        let ghost pred = |r: PlanRowView<PlannedExpenseView>| r.plan_id == plan_id@;
        let ghost amount_of = |r: PlanRowView<PlannedExpenseView>| r.item.expected_amount_cents;
        let mut acc: i64 = 0;
        let mut i: usize = 0;
        proof {
            reveal(Seq::filter);
            assert(views.subrange(0, 0) =~= Seq::<PlanRowView<PlannedExpenseView>>::empty());
            assert(Seq::<PlanRowView<PlannedExpenseView>>::empty().filter(pred).map_values(
                amount_of,
            ) =~= Seq::<i64>::empty());
        }
        while i < rows.len()
            invariant
                i <= rows@.len(),
                views == rows@.map_values(|x: PlannedExpenseRow| x@),
                forall|j: int|
                    0 <= j < rows@.len() ==> (#[trigger] rows@[j])@.item.expected_amount_cents
                        >= 0,
                acc >= 0,
                pred == (|r: PlanRowView<PlannedExpenseView>| r.plan_id == plan_id@),
                amount_of == (|r: PlanRowView<PlannedExpenseView>| r.item.expected_amount_cents),
                acc as int == spec_total_cents(
                    views.subrange(0, i as int).filter(pred).map_values(amount_of),
                ),
            decreases rows@.len() - i,
        {
            let ghost prefix = views.subrange(0, i as int);
            let ghost prefix_next = views.subrange(0, i as int + 1);
            proof {
                reveal(Seq::filter);
                assert(prefix_next.drop_last() =~= prefix);
                assert(prefix_next.last() == views[i as int]);
            }
            if crate::strutil::str_eq(rows[i].plan_id.as_str(), plan_id) {
                let x = rows[i].item.expected_amount_cents;
                acc = if acc > i64::MAX - x {
                    i64::MAX
                } else {
                    acc + x
                };
                proof {
                    let mapped = prefix.filter(pred).map_values(amount_of);
                    assert(prefix_next.filter(pred) =~= prefix.filter(pred).push(
                        views[i as int],
                    ));
                    assert(prefix_next.filter(pred).map_values(amount_of) =~= mapped.push(x));
                    assert(mapped.push(x).drop_last() =~= mapped);
                }
            } else {
                proof {
                    reveal(Seq::filter);
                    assert(prefix_next.filter(pred) =~= prefix.filter(pred));
                }
            }
            i += 1;
        }
        proof {
            assert(views.subrange(0, views.len() as int) =~= views);
        }
        acc
    }

    /// Saturating sum of the expected amounts of a plan's saving lines.
    fn saving_total(&self, rows: &Vec<PlannedSavingRow>, plan_id: &str) -> (t: i64)
        requires
            forall|j: int|
                0 <= j < rows@.len() ==> (#[trigger] rows@[j])@.item.expected_amount_cents >= 0,
        ensures
            t as int == spec_total_cents(
                rows@.map_values(|x: PlannedSavingRow| x@).filter(
                    |r: PlanRowView<PlannedSavingView>| r.plan_id == plan_id@,
                ).map_values(|r: PlanRowView<PlannedSavingView>| r.item.expected_amount_cents),
            ),
    {
        let ghost views = rows@.map_values(|x: PlannedSavingRow| x@);
        let ghost pred = |r: PlanRowView<PlannedSavingView>| r.plan_id == plan_id@;
        let ghost amount_of = |r: PlanRowView<PlannedSavingView>| r.item.expected_amount_cents;
        let mut acc: i64 = 0;
        let mut i: usize = 0;
        proof {
            reveal(Seq::filter);
            assert(views.subrange(0, 0) =~= Seq::<PlanRowView<PlannedSavingView>>::empty());
            assert(Seq::<PlanRowView<PlannedSavingView>>::empty().filter(pred).map_values(
                amount_of,
            ) =~= Seq::<i64>::empty());
        }
        while i < rows.len()
            invariant
                i <= rows@.len(),
                views == rows@.map_values(|x: PlannedSavingRow| x@),
                forall|j: int|
                    0 <= j < rows@.len() ==> (#[trigger] rows@[j])@.item.expected_amount_cents
                        >= 0,
                acc >= 0,
                pred == (|r: PlanRowView<PlannedSavingView>| r.plan_id == plan_id@),
                amount_of == (|r: PlanRowView<PlannedSavingView>| r.item.expected_amount_cents),
                acc as int == spec_total_cents(
                    views.subrange(0, i as int).filter(pred).map_values(amount_of),
                ),
            decreases rows@.len() - i,
        {
            let ghost prefix = views.subrange(0, i as int);
            let ghost prefix_next = views.subrange(0, i as int + 1);
            proof {
                reveal(Seq::filter);
                assert(prefix_next.drop_last() =~= prefix);
                assert(prefix_next.last() == views[i as int]);
            }
            if crate::strutil::str_eq(rows[i].plan_id.as_str(), plan_id) {
                let x = rows[i].item.expected_amount_cents;
                acc = if acc > i64::MAX - x {
                    i64::MAX
                } else {
                    acc + x
                };
                proof {
                    let mapped = prefix.filter(pred).map_values(amount_of);
                    assert(prefix_next.filter(pred) =~= prefix.filter(pred).push(
                        views[i as int],
                    ));
                    assert(prefix_next.filter(pred).map_values(amount_of) =~= mapped.push(x));
                    assert(mapped.push(x).drop_last() =~= mapped);
                }
            } else {
                proof {
                    reveal(Seq::filter);
                    assert(prefix_next.filter(pred) =~= prefix.filter(pred));
                }
            }
            i += 1;
        }
        proof {
            assert(views.subrange(0, views.len() as int) =~= views);
        }
        acc
    }

    /// Recalculate a plan's three totals from its lines and write them
    /// onto every plan row with this identifier.
    fn update_plan_totals(&self, db: &mut Database, plan_id: &str)
        requires
            db_wf(*old(db)),
        ensures
            db_wf(*final(db)),
            db_same_except_planning(*old(db), *final(db)),
            final(db).planned_incomes@ == old(db).planned_incomes@,
            final(db).planned_expenses@ == old(db).planned_expenses@,
            final(db).planned_savings@ == old(db).planned_savings@,
            plans_totals_updated(
                old(db).plans_v(),
                final(db).plans_v(),
                plan_id@,
                spec_income_total(*old(db), plan_id@),
                spec_expense_total(*old(db), plan_id@),
                spec_saving_total(*old(db), plan_id@),
            ),
    {
        let income = self.income_total(&db.planned_incomes, plan_id);
        let expenses = self.expense_total(&db.planned_expenses, plan_id);
        let savings = self.saving_total(&db.planned_savings, plan_id);
        let ghost orig = db.monthly_plans@;
        let mut i: usize = 0;
        while i < db.monthly_plans.len()
            invariant
                i <= db.monthly_plans@.len(),
                db.monthly_plans@.len() == orig.len(),
                income as int == spec_income_total(*old(db), plan_id@),
                expenses as int == spec_expense_total(*old(db), plan_id@),
                savings as int == spec_saving_total(*old(db), plan_id@),
                forall|j: int| i <= j < orig.len() ==> db.monthly_plans@[j] == orig[j],
                forall|j: int|
                    0 <= j < i ==> (#[trigger] db.monthly_plans@[j])@ == (
                    if orig[j]@.id == plan_id@ {
                        MonthlyPlanView {
                            total_planned_income_cents: income,
                            total_planned_expenses_cents: expenses,
                            total_planned_savings_cents: savings,
                            ..orig[j]@
                        }
                    } else {
                        orig[j]@
                    }),
                db.debts@ == old(db).debts@,
                db.schedules@ == old(db).schedules@,
                db.reminders@ == old(db).reminders@,
                db.reminder_logs@ == old(db).reminder_logs@,
                db.transactions@ == old(db).transactions@,
                db.planned_incomes@ == old(db).planned_incomes@,
                db.planned_expenses@ == old(db).planned_expenses@,
                db.planned_savings@ == old(db).planned_savings@,
            decreases db.monthly_plans@.len() - i,
        {
            if crate::strutil::str_eq(db.monthly_plans[i].id.as_str(), plan_id) {
                let new_row = ({
                    let row = &db.monthly_plans[i];
                    MonthlyPlanDto {
                        id: row.id.clone(),
                        month: row.month.clone(),
                        total_planned_income_cents: income,
                        total_planned_expenses_cents: expenses,
                        total_planned_savings_cents: savings,
                        note: crate::strutil::clone_opt_string(&row.note),
                    }
                });
                db.monthly_plans[i] = new_row;
            }
            i += 1;
        }
    }

    /// Create a monthly plan with the given totals (zero when absent).
    pub fn create_monthly_plan(&self, db: &mut Database, input: CreateMonthlyPlanInput) -> (r:
        PlanningResult<MonthlyPlanDto>)
        requires
            db_wf(*old(db)),
        ensures
            db_wf(*final(db)),
            db_same_except_planning(*old(db), *final(db)),
            final(db).planned_incomes@ == old(db).planned_incomes@,
            final(db).planned_expenses@ == old(db).planned_expenses@,
            final(db).planned_savings@ == old(db).planned_savings@,
            r is Ok,
            r matches Ok(p) ==> ({
                &&& p@.month == input.month@
                &&& p@.total_planned_income_cents == (
                match input.total_planned_income_cents {
                    Option::Some(v) => v,
                    Option::None => 0i64,
                })
                &&& p@.total_planned_expenses_cents == (
                match input.total_planned_expenses_cents {
                    Option::Some(v) => v,
                    Option::None => 0i64,
                })
                &&& p@.total_planned_savings_cents == (
                match input.total_planned_savings_cents {
                    Option::Some(v) => v,
                    Option::None => 0i64,
                })
                &&& p@.note == view_opt_str(input.note)
                &&& final(db).plans_v() == old(db).plans_v().push(p@)
            }),
    {
        let id = fresh_uuid();
        let stored = MonthlyPlanDto {
            id: id,
            month: input.month,
            total_planned_income_cents: match input.total_planned_income_cents {
                Some(v) => v,
                None => 0,
            },
            total_planned_expenses_cents: match input.total_planned_expenses_cents {
                Some(v) => v,
                None => 0,
            },
            total_planned_savings_cents: match input.total_planned_savings_cents {
                Some(v) => v,
                None => 0,
            },
            note: input.note,
        };
        let result = stored.clone();
        db.monthly_plans.push(stored);
        proof {
            assert(db.plans_v() =~= old(db).plans_v().push(result@));
        }
        Ok(result)
    }

    /// Every stored monthly plan, in month order descending.
    pub fn list_monthly_plans(&self, db: &Database) -> (r: PlanningResult<Vec<MonthlyPlanDto>>)
        ensures
            r is Ok,
            ({
                let out = r->Ok_0@.map_values(|x: MonthlyPlanDto| x@);
                &&& out.to_multiset() == db.plans_v().to_multiset()
                &&& forall|i: int, j: int|
                    0 <= i < j < out.len() ==> !crate::strutil::spec_str_lt(
                        (#[trigger] out[i]).month,
                        (#[trigger] out[j]).month,
                    )
            }),
    {
        let ghost views = db.plans_v();
        let mut out: Vec<MonthlyPlanDto> = Vec::new();
        let mut i: usize = 0;
        proof {
            broadcast use vstd::seq_lib::group_to_multiset_ensures;

            assert(views.subrange(0, 0) =~= Seq::<MonthlyPlanView>::empty());
            assert(out@.map_values(|x: MonthlyPlanDto| x@) =~= Seq::<MonthlyPlanView>::empty());
        }
        while i < db.monthly_plans.len()
            invariant
                i <= db.monthly_plans@.len(),
                views == db.plans_v(),
                out@.map_values(|x: MonthlyPlanDto| x@).to_multiset() == views.subrange(
                    0,
                    i as int,
                ).to_multiset(),
                forall|k: int, l: int|
                    0 <= k < l < out@.len() ==> !crate::strutil::spec_str_lt(
                        (#[trigger] out@[k])@.month,
                        (#[trigger] out@[l])@.month,
                    ),
            decreases db.monthly_plans@.len() - i,
        {
            let ghost prefix = views.subrange(0, i as int);
            let ghost prefix_next = views.subrange(0, i as int + 1);
            proof {
                broadcast use vstd::seq_lib::group_to_multiset_ensures;

                assert(prefix_next.drop_last() =~= prefix);
                assert(prefix_next.last() == views[i as int]);
                assert(prefix_next =~= prefix.push(views[i as int]));
            }
            let x = db.monthly_plans[i].clone();
            let ghost xv = x@;
            let mut pos: usize = 0;
            while pos < out.len() && !crate::strutil::str_lt(
                out[pos].month.as_str(),
                x.month.as_str(),
            )
                invariant
                    pos <= out@.len(),
                    xv == x@,
                    forall|k: int|
                        0 <= k < pos ==> !crate::strutil::spec_str_lt(
                            (#[trigger] out@[k])@.month,
                            xv.month,
                        ),
                decreases out@.len() - pos,
            {
                pos += 1;
            }
            let stopped_short = pos < out.len();
            let ghost out_before = out@;
            out.insert(pos, x);
            proof {
                broadcast use vstd::seq_lib::group_to_multiset_ensures;

                let prev = out_before.map_values(|y: MonthlyPlanDto| y@);
                crate::database::lemma_insert_to_multiset(prev, pos as int, xv);
                let cur = prev.insert(pos as int, xv);
                prev.insert_ensures(pos as int, xv);
                assert(out@.map_values(|y: MonthlyPlanDto| y@) =~= cur);
                assert(stopped_short ==> crate::strutil::spec_str_lt(
                    prev[pos as int].month,
                    xv.month,
                ));
                assert forall|k: int, l: int| 0 <= k < l < out@.len() implies
                    !crate::strutil::spec_str_lt(
                    (#[trigger] out@[k])@.month,
                    (#[trigger] out@[l])@.month,
                ) by {
                    let ck = out@[k]@;
                    let cl = out@[l]@;
                    assert(ck == cur[k] && cl == cur[l]);
                    if l < pos {
                        assert(cur[k] == prev[k] && cur[l] == prev[l]);
                    } else if k < pos && l == pos {
                        assert(cur[k] == prev[k] && cur[l] == xv);
                    } else if k < pos && l > pos {
                        assert(cur[k] == prev[k] && cur[l] == prev[l - 1]);
                    } else if k == pos && l > pos {
                        assert(cur[k] == xv && cur[l] == prev[l - 1]);
                        assert(pos < prev.len());
                        assert(crate::strutil::spec_str_lt(prev[pos as int].month, xv.month));
                        if crate::strutil::spec_str_lt(xv.month, prev[l - 1].month) {
                            crate::strutil::lemma_str_lt_transitive(
                                prev[pos as int].month,
                                xv.month,
                                prev[l - 1].month,
                            );
                            if l - 1 == pos {
                                crate::strutil::lemma_str_lt_irreflexive(prev[pos as int].month);
                            } else {
                                assert(!crate::strutil::spec_str_lt(
                                    prev[pos as int].month,
                                    prev[l - 1].month,
                                ));
                            }
                            assert(false);
                        }
                    } else {
                        assert(cur[k] == prev[k - 1] && cur[l] == prev[l - 1]);
                    }
                }
            }
            i += 1;
        }
        proof {
            assert(views.subrange(0, views.len() as int) =~= views);
        }
        Ok(out)
    }
}


/// The first planned income row whose line carries `id`, if any.
pub open spec fn spec_find_income(
    rows: Seq<PlanRowView<PlannedIncomeView>>,
    id: Seq<char>,
) -> Option<PlanRowView<PlannedIncomeView>>
    decreases rows.len(),
{
    if rows.len() == 0 {
        None
    } else if rows[0].item.id == id {
        Some(rows[0])
    } else {
        spec_find_income(rows.subrange(1, rows.len() as int), id)
    }
}

/// The income line an update call settles on: fields of the input
/// override the first matching line's fields.
pub open spec fn spec_merged_income(
    existing: PlannedIncomeView,
    input: UpdatePlannedIncomeInput,
) -> PlannedIncomeView {
    PlannedIncomeView {
        id: existing.id,
        source_name: match input.source_name {
            Option::Some(v) => v@,
            Option::None => existing.source_name,
        },
        kind: match input.kind {
            Option::Some(v) => v@,
            Option::None => existing.kind,
        },
        expected_amount_cents: match input.expected_amount_cents {
            Option::Some(v) => v,
            Option::None => existing.expected_amount_cents,
        },
        actual_amount_cents: match input.actual_amount_cents {
            Option::Some(v) => v,
            Option::None => existing.actual_amount_cents,
        },
        expected_date: match input.expected_date {
            Option::Some(v) => Some(v@),
            Option::None => existing.expected_date,
        },
        account_id: match input.account_id {
            Option::Some(v) => Some(v@),
            Option::None => existing.account_id,
        },
        status: match input.status {
            Option::Some(v) => v@,
            Option::None => existing.status,
        },
    }
}

impl PlanningService {
    /// Add a planned income line to a plan and bring the plan's totals
    /// back in sync.
    pub fn add_planned_income(&self, db: &mut Database, input: AddPlannedIncomeInput) -> (r:
        PlanningResult<PlannedIncomeDto>)
        requires
            db_wf(*old(db)),
        ensures
            db_wf(*final(db)),
            db_same_except_planning(*old(db), *final(db)),
            final(db).planned_expenses@ == old(db).planned_expenses@,
            final(db).planned_savings@ == old(db).planned_savings@,
            r is Ok <==> 0 <= input.expected_amount_cents <= MAX_MONEY_CENTS,
            r matches Err(e) ==> e is Validation && *final(db) == *old(db),
            r matches Ok(d) ==> ({
                &&& d@.source_name == input.source_name@
                &&& d@.kind == input.kind@
                &&& d@.expected_amount_cents == input.expected_amount_cents
                &&& d@.actual_amount_cents == 0
                &&& d@.expected_date == view_opt_str(input.expected_date)
                &&& d@.account_id == view_opt_str(input.account_id)
                &&& d@.status == "planned"@
                &&& final(db).incomes_v() == old(db).incomes_v().push(
                    PlanRowView { plan_id: input.monthly_plan_id@, item: d@ },
                )
                &&& plans_totals_updated(
                    old(db).plans_v(),
                    final(db).plans_v(),
                    input.monthly_plan_id@,
                    spec_income_total(*final(db), input.monthly_plan_id@),
                    spec_expense_total(*final(db), input.monthly_plan_id@),
                    spec_saving_total(*final(db), input.monthly_plan_id@),
                )
            }),
    {
        if input.expected_amount_cents < 0 || input.expected_amount_cents > MAX_MONEY_CENTS {
            return Err(PlanningError::Validation(String::from_str("invalid amount")));
        }
        let id = fresh_uuid();
        let plan_id = input.monthly_plan_id;
        let item = PlannedIncomeDto {
            id: id,
            source_name: input.source_name,
            kind: input.kind,
            expected_amount_cents: input.expected_amount_cents,
            actual_amount_cents: 0,
            expected_date: input.expected_date,
            account_id: input.account_id,
            status: String::from_str("planned"),
        };
        let result = item.clone();
        db.planned_incomes.push(PlannedIncomeRow { plan_id: plan_id.clone(), item: item });
        let ghost mid = *db;
        proof {
            assert(db.incomes_v() =~= old(db).incomes_v().push(
                PlanRowView { plan_id: plan_id@, item: result@ },
            ));
        }
        self.update_plan_totals(db, plan_id.as_str());
        proof {
            assert(final(db).incomes_v() =~= mid.incomes_v());
            assert(final(db).expenses_v() =~= mid.expenses_v());
            assert(final(db).savings_v() =~= mid.savings_v());
            assert(spec_income_total(*final(db), plan_id@) == spec_income_total(mid, plan_id@));
            assert(spec_expense_total(*final(db), plan_id@) == spec_expense_total(mid, plan_id@));
            assert(spec_saving_total(*final(db), plan_id@) == spec_saving_total(mid, plan_id@));
        }
        Ok(result)
    }

    /// The income lines of one plan, in insertion order.
    pub fn list_incomes(&self, db: &Database, plan_id: &str) -> (r: PlanningResult<
        Vec<PlannedIncomeDto>,
    >)
        ensures
            r is Ok,
            r->Ok_0@.map_values(|x: PlannedIncomeDto| x@) == db.incomes_v().filter(
                |rv: PlanRowView<PlannedIncomeView>| rv.plan_id == plan_id@,
            ).map_values(|rv: PlanRowView<PlannedIncomeView>| rv.item),
    {
        let ghost views = db.incomes_v();
        let ghost pred = |rv: PlanRowView<PlannedIncomeView>| rv.plan_id == plan_id@;
        let mut out: Vec<PlannedIncomeDto> = Vec::new();
        let mut i: usize = 0;
        proof {
            reveal(Seq::filter);
            assert(views.subrange(0, 0) =~= Seq::<PlanRowView<PlannedIncomeView>>::empty());
            assert(Seq::<PlanRowView<PlannedIncomeView>>::empty().filter(pred).map_values(
                |rv: PlanRowView<PlannedIncomeView>| rv.item,
            ) =~= Seq::<PlannedIncomeView>::empty());
            assert(out@.map_values(|x: PlannedIncomeDto| x@) =~= Seq::<
                PlannedIncomeView,
            >::empty());
        }
        while i < db.planned_incomes.len()
            invariant
                i <= db.planned_incomes@.len(),
                views == db.incomes_v(),
                pred == (|rv: PlanRowView<PlannedIncomeView>| rv.plan_id == plan_id@),
                out@.map_values(|x: PlannedIncomeDto| x@) == views.subrange(0, i as int).filter(
                    pred,
                ).map_values(|rv: PlanRowView<PlannedIncomeView>| rv.item),
            decreases db.planned_incomes@.len() - i,
        {
            let ghost prefix = views.subrange(0, i as int);
            let ghost prefix_next = views.subrange(0, i as int + 1);
            proof {
                reveal(Seq::filter);
                assert(prefix_next.drop_last() =~= prefix);
                assert(prefix_next.last() == views[i as int]);
            }
            if crate::strutil::str_eq(db.planned_incomes[i].plan_id.as_str(), plan_id) {
                let ghost out_before = out@;
                out.push(db.planned_incomes[i].item.clone());
                proof {
                    assert(pred(views[i as int]));
                    assert(prefix_next.filter(pred) =~= prefix.filter(pred).push(
                        views[i as int],
                    ));
                    let lhs = out@.map_values(|x: PlannedIncomeDto| x@);
                    let rhs = prefix_next.filter(pred).map_values(
                        |rv: PlanRowView<PlannedIncomeView>| rv.item,
                    );
                    assert(out@.len() == out_before.len() + 1);
                    assert(out_before.map_values(|x: PlannedIncomeDto| x@) == prefix.filter(
                        pred,
                    ).map_values(|rv: PlanRowView<PlannedIncomeView>| rv.item));
                    assert(out_before.map_values(|x: PlannedIncomeDto| x@).len()
                        == out_before.len());
                    assert(prefix.filter(pred).map_values(
                        |rv: PlanRowView<PlannedIncomeView>| rv.item,
                    ).len() == prefix.filter(pred).len());
                    assert(prefix_next.filter(pred).len() == prefix.filter(pred).len() + 1);
                    assert(lhs.len() == rhs.len());
                    assert forall|j: int| 0 <= j < lhs.len() implies lhs[j] == rhs[j] by {
                        if j < out_before.len() {
                            assert(out@[j] == out_before[j]);
                            assert(prefix_next.filter(pred)[j] == prefix.filter(pred)[j]);
                            assert(out_before.map_values(|x: PlannedIncomeDto| x@)[j]
                                == prefix.filter(pred).map_values(
                                |rv: PlanRowView<PlannedIncomeView>| rv.item,
                            )[j]);
                        } else {
                            assert(out@[j]@ == views[i as int].item);
                            assert(prefix_next.filter(pred)[j] == views[i as int]);
                        }
                    }
                    assert(lhs =~= rhs);
                }
            } else {
                proof {
                    reveal(Seq::filter);
                    assert(prefix_next.filter(pred) =~= prefix.filter(pred));
                }
            }
            i += 1;
        }
        proof {
            assert(views.subrange(0, views.len() as int) =~= views);
        }
        Ok(out)
    }

    /// Update every planned income line with the input's identifier;
    /// absent fields keep the first matching line's values. When the
    /// expected amount changes, the plan's totals are brought back in
    /// sync.
    pub fn update_income(&self, db: &mut Database, input: UpdatePlannedIncomeInput) -> (r:
        PlanningResult<PlannedIncomeDto>)
        requires
            db_wf(*old(db)),
        ensures
            db_wf(*final(db)),
            db_same_except_planning(*old(db), *final(db)),
            final(db).planned_expenses@ == old(db).planned_expenses@,
            final(db).planned_savings@ == old(db).planned_savings@,
            ({
                let found = spec_find_income(old(db).incomes_v(), input.id@);
                let merged = spec_merged_income(found->Some_0.item, input);
                let retotal = input.expected_amount_cents is Some
                    && input.expected_amount_cents->Some_0
                    != found->Some_0.item.expected_amount_cents;
                &&& (r is Ok <==> found is Some && planned_amounts_wf(
                    merged.expected_amount_cents,
                    merged.actual_amount_cents,
                ))
                &&& (r matches Err(e) ==> e is Validation && *final(db) == *old(db))
                &&& (r matches Ok(d) ==> {
                    &&& d@ == merged
                    &&& final(db).planned_incomes@.len() == old(db).planned_incomes@.len()
                    &&& (forall|j: int|
                        0 <= j < old(db).planned_incomes@.len()
                            ==> (#[trigger] final(db).planned_incomes@[j])@ == (
                        if old(db).planned_incomes@[j]@.item.id == input.id@ {
                            PlanRowView {
                                plan_id: old(db).planned_incomes@[j]@.plan_id,
                                item: merged,
                            }
                        } else {
                            old(db).planned_incomes@[j]@
                        }))
                    &&& (retotal ==> plans_totals_updated(
                        old(db).plans_v(),
                        final(db).plans_v(),
                        found->Some_0.plan_id,
                        spec_income_total(*final(db), found->Some_0.plan_id),
                        spec_expense_total(*final(db), found->Some_0.plan_id),
                        spec_saving_total(*final(db), found->Some_0.plan_id),
                    ))
                    &&& (!retotal ==> final(db).monthly_plans@ == old(db).monthly_plans@)
                })
            }),
    {
        let ghost views = old(db).incomes_v();
        let mut ix: usize = 0;
        let mut found = false;
        proof {
            assert(views.subrange(0, views.len() as int) =~= views);
        }
        while ix < db.planned_incomes.len() && !found
            invariant
                ix <= db.planned_incomes@.len(),
                db.planned_incomes@ == old(db).planned_incomes@,
                views == old(db).incomes_v(),
                !found ==> spec_find_income(views, input.id@) == spec_find_income(
                    views.subrange(ix as int, views.len() as int),
                    input.id@,
                ),
                found ==> ix < views.len() && spec_find_income(views, input.id@) == Some(
                    views[ix as int],
                ) && views[ix as int].item.id == input.id@,
            decreases db.planned_incomes@.len() - ix, (if found { 0int } else { 1int }),
        {
            proof {
                let rest = views.subrange(ix as int, views.len() as int);
                assert(rest[0] == views[ix as int]);
                assert(rest.subrange(1, rest.len() as int) =~= views.subrange(
                    ix as int + 1,
                    views.len() as int,
                ));
            }
            if crate::strutil::str_eq(db.planned_incomes[ix].item.id.as_str(), input.id.as_str()) {
                found = true;
            } else {
                ix += 1;
            }
        }
        if !found {
            proof {
                assert(views.subrange(ix as int, views.len() as int).len() == 0);
            }
            return Err(PlanningError::Validation(String::from_str("income not found")));
        }
        let existing = db.planned_incomes[ix].item.clone();
        let existing_plan = db.planned_incomes[ix].plan_id.clone();
        let merged = PlannedIncomeDto {
            id: existing.id.clone(),
            source_name: match &input.source_name {
                Some(v) => v.clone(),
                None => existing.source_name.clone(),
            },
            kind: match &input.kind {
                Some(v) => v.clone(),
                None => existing.kind.clone(),
            },
            expected_amount_cents: match input.expected_amount_cents {
                Some(v) => v,
                None => existing.expected_amount_cents,
            },
            actual_amount_cents: match input.actual_amount_cents {
                Some(v) => v,
                None => existing.actual_amount_cents,
            },
            expected_date: match &input.expected_date {
                Some(v) => Some(v.clone()),
                None => crate::strutil::clone_opt_string(&existing.expected_date),
            },
            account_id: match &input.account_id {
                Some(v) => Some(v.clone()),
                None => crate::strutil::clone_opt_string(&existing.account_id),
            },
            status: match &input.status {
                Some(v) => v.clone(),
                None => existing.status.clone(),
            },
        };
        if merged.expected_amount_cents < 0 || merged.expected_amount_cents > MAX_MONEY_CENTS
            || merged.actual_amount_cents < 0 || merged.actual_amount_cents > MAX_MONEY_CENTS {
            return Err(PlanningError::Validation(String::from_str("invalid amount")));
        }
        let ghost orig = db.planned_incomes@;
        let mut i: usize = 0;
        while i < db.planned_incomes.len()
            invariant
                i <= db.planned_incomes@.len(),
                db.planned_incomes@.len() == orig.len(),
                merged@ == spec_merged_income(
                    spec_find_income(old(db).incomes_v(), input.id@)->Some_0.item,
                    input,
                ),
                forall|j: int| i <= j < orig.len() ==> db.planned_incomes@[j] == orig[j],
                forall|j: int|
                    0 <= j < i ==> (#[trigger] db.planned_incomes@[j])@ == (
                    if orig[j]@.item.id == input.id@ {
                        PlanRowView { plan_id: orig[j]@.plan_id, item: merged@ }
                    } else {
                        orig[j]@
                    }),
                db.debts@ == old(db).debts@,
                db.schedules@ == old(db).schedules@,
                db.reminders@ == old(db).reminders@,
                db.reminder_logs@ == old(db).reminder_logs@,
                db.transactions@ == old(db).transactions@,
                db.monthly_plans@ == old(db).monthly_plans@,
                db.planned_expenses@ == old(db).planned_expenses@,
                db.planned_savings@ == old(db).planned_savings@,
            decreases db.planned_incomes@.len() - i,
        {
            if crate::strutil::str_eq(
                db.planned_incomes[i].item.id.as_str(),
                input.id.as_str(),
            ) {
                let new_row = ({
                    let row = &db.planned_incomes[i];
                    PlannedIncomeRow { plan_id: row.plan_id.clone(), item: merged.clone() }
                });
                db.planned_incomes[i] = new_row;
            }
            i += 1;
        }
        let changed = match input.expected_amount_cents {
            Some(v) => v != existing.expected_amount_cents,
            None => false,
        };
        if changed {
            let ghost mid = *db;
            self.update_plan_totals(db, existing_plan.as_str());
            proof {
                assert(final(db).incomes_v() =~= mid.incomes_v());
                assert(final(db).expenses_v() =~= mid.expenses_v());
                assert(final(db).savings_v() =~= mid.savings_v());
                assert(spec_income_total(*final(db), existing_plan@) == spec_income_total(
                    mid,
                    existing_plan@,
                ));
                assert(spec_expense_total(*final(db), existing_plan@) == spec_expense_total(
                    mid,
                    existing_plan@,
                ));
                assert(spec_saving_total(*final(db), existing_plan@) == spec_saving_total(
                    mid,
                    existing_plan@,
                ));
            }
        }
        Ok(merged)
    }

    /// Delete every planned income line with the input's identifier and,
    /// when one existed, bring its plan's totals back in sync.
    pub fn delete_income(&self, db: &mut Database, input: DeletePlannedIncomeInput) -> (r:
        PlanningResult<()>)
        requires
            db_wf(*old(db)),
        ensures
            db_wf(*final(db)),
            db_same_except_planning(*old(db), *final(db)),
            final(db).planned_expenses@ == old(db).planned_expenses@,
            final(db).planned_savings@ == old(db).planned_savings@,
            r is Ok,
            ({
                let found = spec_find_income(old(db).incomes_v(), input.id@);
                &&& final(db).incomes_v() == old(db).incomes_v().filter(
                    |rv: PlanRowView<PlannedIncomeView>| rv.item.id != input.id@,
                )
                &&& (found is Some ==> plans_totals_updated(
                    old(db).plans_v(),
                    final(db).plans_v(),
                    found->Some_0.plan_id,
                    spec_income_total(*final(db), found->Some_0.plan_id),
                    spec_expense_total(*final(db), found->Some_0.plan_id),
                    spec_saving_total(*final(db), found->Some_0.plan_id),
                ))
                &&& (found is None ==> final(db).monthly_plans@ == old(db).monthly_plans@)
            }),
    {
        let ghost views = old(db).incomes_v();
        let ghost pred = |rv: PlanRowView<PlannedIncomeView>| rv.item.id != input.id@;
        let mut plan_of_first: Option<String> = None;
        let mut ix: usize = 0;
        proof {
            assert(views.subrange(0, views.len() as int) =~= views);
        }
        while ix < db.planned_incomes.len() && plan_of_first.is_none()
            invariant
                ix <= db.planned_incomes@.len(),
                db.planned_incomes@ == old(db).planned_incomes@,
                views == old(db).incomes_v(),
                plan_of_first is None ==> spec_find_income(views, input.id@) == spec_find_income(
                    views.subrange(ix as int, views.len() as int),
                    input.id@,
                ),
                plan_of_first matches Some(p) ==> spec_find_income(views, input.id@) is Some
                    && p@ == spec_find_income(views, input.id@)->Some_0.plan_id,
            decreases db.planned_incomes@.len() - ix, (
            if plan_of_first is None {
                1int
            } else {
                0int
            }),
        {
            proof {
                let rest = views.subrange(ix as int, views.len() as int);
                assert(rest[0] == views[ix as int]);
                assert(rest.subrange(1, rest.len() as int) =~= views.subrange(
                    ix as int + 1,
                    views.len() as int,
                ));
            }
            if crate::strutil::str_eq(db.planned_incomes[ix].item.id.as_str(), input.id.as_str()) {
                plan_of_first = Some(db.planned_incomes[ix].plan_id.clone());
            } else {
                ix += 1;
            }
        }
        proof {
            if plan_of_first is None {
                assert(views.subrange(ix as int, views.len() as int).len() == 0);
            }
        }
        let mut kept: Vec<PlannedIncomeRow> = Vec::new();
        let mut i: usize = 0;
        proof {
            reveal(Seq::filter);
            assert(views.subrange(0, 0) =~= Seq::<PlanRowView<PlannedIncomeView>>::empty());
            assert(Seq::<PlanRowView<PlannedIncomeView>>::empty().filter(pred) =~= Seq::<
                PlanRowView<PlannedIncomeView>,
            >::empty());
        }
        while i < db.planned_incomes.len()
            invariant
                i <= db.planned_incomes@.len(),
                db.planned_incomes@ == old(db).planned_incomes@,
                views == old(db).incomes_v(),
                pred == (|rv: PlanRowView<PlannedIncomeView>| rv.item.id != input.id@),
                kept@.map_values(|x: PlannedIncomeRow| x@) == views.subrange(0, i as int).filter(
                    pred,
                ),
            decreases db.planned_incomes@.len() - i,
        {
            let ghost prefix = views.subrange(0, i as int);
            let ghost prefix_next = views.subrange(0, i as int + 1);
            proof {
                reveal(Seq::filter);
                assert(prefix_next.drop_last() =~= prefix);
                assert(prefix_next.last() == views[i as int]);
            }
            if !crate::strutil::str_eq(
                db.planned_incomes[i].item.id.as_str(),
                input.id.as_str(),
            ) {
                let row = &db.planned_incomes[i];
                kept.push(PlannedIncomeRow { plan_id: row.plan_id.clone(), item: row.item.clone() });
            }
            i += 1;
            proof {
                reveal(Seq::filter);
                assert(kept@.map_values(|x: PlannedIncomeRow| x@) =~= prefix_next.filter(pred));
            }
        }
        db.planned_incomes = kept;
        proof {
            assert(views.subrange(0, views.len() as int) =~= views);
            assert(db.incomes_v() =~= views.filter(pred));
            assert forall|j: int| 0 <= j < db.planned_incomes@.len() implies planned_amounts_wf(
                (#[trigger] db.planned_incomes@[j])@.item.expected_amount_cents,
                db.planned_incomes@[j]@.item.actual_amount_cents,
            ) by {
                assert(db.planned_incomes@[j]@ == db.incomes_v()[j]);
                crate::database::lemma_filter_elements_contained(views, pred, j);
                let rv = views.filter(pred)[j];
                let k = choose|k: int| 0 <= k < views.len() && views[k] == rv;
                assert(old(db).planned_incomes@[k]@ == views[k]);
                assert(planned_amounts_wf(
                    old(db).planned_incomes@[k]@.item.expected_amount_cents,
                    old(db).planned_incomes@[k]@.item.actual_amount_cents,
                ));
            }
        }
        if let Some(plan_id) = &plan_of_first {
            let ghost mid = *db;
            self.update_plan_totals(db, plan_id.as_str());
            proof {
                assert(final(db).incomes_v() =~= mid.incomes_v());
                assert(final(db).expenses_v() =~= mid.expenses_v());
                assert(final(db).savings_v() =~= mid.savings_v());
                assert(spec_income_total(*final(db), plan_id@) == spec_income_total(mid, plan_id@));
                assert(spec_expense_total(*final(db), plan_id@) == spec_expense_total(
                    mid,
                    plan_id@,
                ));
                assert(spec_saving_total(*final(db), plan_id@) == spec_saving_total(mid, plan_id@));
            }
        }
        Ok(())
    }
}


/// The first planned expense row whose line carries `id`, if any.
pub open spec fn spec_find_expense(
    rows: Seq<PlanRowView<PlannedExpenseView>>,
    id: Seq<char>,
) -> Option<PlanRowView<PlannedExpenseView>>
    decreases rows.len(),
{
    if rows.len() == 0 {
        None
    } else if rows[0].item.id == id {
        Some(rows[0])
    } else {
        spec_find_expense(rows.subrange(1, rows.len() as int), id)
    }
}

/// The expense line an update call settles on: fields of the input
/// override the first matching line's fields.
pub open spec fn spec_merged_expense(
    existing: PlannedExpenseView,
    input: UpdatePlannedExpenseInput,
) -> PlannedExpenseView {
    PlannedExpenseView {
        id: existing.id,
        label: match input.label {
            Option::Some(v) => v@,
            Option::None => existing.label,
        },
        expected_amount_cents: match input.expected_amount_cents {
            Option::Some(v) => v,
            Option::None => existing.expected_amount_cents,
        },
        actual_amount_cents: match input.actual_amount_cents {
            Option::Some(v) => v,
            Option::None => existing.actual_amount_cents,
        },
        category_id: match input.category_id {
            Option::Some(v) => Some(v@),
            Option::None => existing.category_id,
        },
        frequency: match input.frequency {
            Option::Some(v) => v@,
            Option::None => existing.frequency,
        },
    }
}

/// The first planned saving row whose line carries `id`, if any.
pub open spec fn spec_find_saving(
    rows: Seq<PlanRowView<PlannedSavingView>>,
    id: Seq<char>,
) -> Option<PlanRowView<PlannedSavingView>>
    decreases rows.len(),
{
    if rows.len() == 0 {
        None
    } else if rows[0].item.id == id {
        Some(rows[0])
    } else {
        spec_find_saving(rows.subrange(1, rows.len() as int), id)
    }
}

/// The saving line an update call settles on: fields of the input
/// override the first matching line's fields.
pub open spec fn spec_merged_saving(
    existing: PlannedSavingView,
    input: UpdatePlannedSavingInput,
) -> PlannedSavingView {
    PlannedSavingView {
        id: existing.id,
        goal_id: match input.goal_id {
            Option::Some(v) => Some(v@),
            Option::None => existing.goal_id,
        },
        expected_amount_cents: match input.expected_amount_cents {
            Option::Some(v) => v,
            Option::None => existing.expected_amount_cents,
        },
        actual_amount_cents: match input.actual_amount_cents {
            Option::Some(v) => v,
            Option::None => existing.actual_amount_cents,
        },
    }
}

impl PlanningService {
    /// Add a planned expense line to a plan and bring the plan's totals
    /// back in sync.
    pub fn add_planned_expense(&self, db: &mut Database, input: AddPlannedExpenseInput) -> (r:
        PlanningResult<PlannedExpenseDto>)
        requires
            db_wf(*old(db)),
        ensures
            db_wf(*final(db)),
            db_same_except_planning(*old(db), *final(db)),
            final(db).planned_incomes@ == old(db).planned_incomes@,
            final(db).planned_savings@ == old(db).planned_savings@,
            r is Ok <==> 0 <= input.expected_amount_cents <= MAX_MONEY_CENTS,
            r matches Err(e) ==> e is Validation && *final(db) == *old(db),
            r matches Ok(d) ==> ({
                &&& d@.label == input.label@
                &&& d@.expected_amount_cents == input.expected_amount_cents
                &&& d@.actual_amount_cents == 0
                &&& d@.category_id == view_opt_str(input.category_id)
                &&& d@.frequency == (
                match input.frequency {
                    Option::Some(f) => f@,
                    Option::None => "once"@,
                })
                &&& final(db).expenses_v() == old(db).expenses_v().push(
                    PlanRowView { plan_id: input.monthly_plan_id@, item: d@ },
                )
                &&& plans_totals_updated(
                    old(db).plans_v(),
                    final(db).plans_v(),
                    input.monthly_plan_id@,
                    spec_income_total(*final(db), input.monthly_plan_id@),
                    spec_expense_total(*final(db), input.monthly_plan_id@),
                    spec_saving_total(*final(db), input.monthly_plan_id@),
                )
            }),
    {
        if input.expected_amount_cents < 0 || input.expected_amount_cents > MAX_MONEY_CENTS {
            return Err(PlanningError::Validation(String::from_str("invalid amount")));
        }
        let id = fresh_uuid();
        let plan_id = input.monthly_plan_id;
        let item = PlannedExpenseDto {
            id: id,
            label: input.label,
            expected_amount_cents: input.expected_amount_cents,
            actual_amount_cents: 0,
            category_id: input.category_id,
            frequency: match input.frequency {
                Some(f) => f,
                None => String::from_str("once"),
            },
        };
        let result = item.clone();
        db.planned_expenses.push(PlannedExpenseRow { plan_id: plan_id.clone(), item: item });
        let ghost mid = *db;
        proof {
            assert(db.expenses_v() =~= old(db).expenses_v().push(
                PlanRowView { plan_id: plan_id@, item: result@ },
            ));
        }
        self.update_plan_totals(db, plan_id.as_str());
        proof {
            assert(final(db).incomes_v() =~= mid.incomes_v());
            assert(final(db).expenses_v() =~= mid.expenses_v());
            assert(final(db).savings_v() =~= mid.savings_v());
            assert(spec_income_total(*final(db), plan_id@) == spec_income_total(mid, plan_id@));
            assert(spec_expense_total(*final(db), plan_id@) == spec_expense_total(mid, plan_id@));
            assert(spec_saving_total(*final(db), plan_id@) == spec_saving_total(mid, plan_id@));
        }
        Ok(result)
    }

    /// The expense lines of one plan, in insertion order.
    pub fn list_expenses(&self, db: &Database, plan_id: &str) -> (r: PlanningResult<
        Vec<PlannedExpenseDto>,
    >)
        ensures
            r is Ok,
            r->Ok_0@.map_values(|x: PlannedExpenseDto| x@) == db.expenses_v().filter(
                |rv: PlanRowView<PlannedExpenseView>| rv.plan_id == plan_id@,
            ).map_values(|rv: PlanRowView<PlannedExpenseView>| rv.item),
    {
        let ghost views = db.expenses_v();
        let ghost pred = |rv: PlanRowView<PlannedExpenseView>| rv.plan_id == plan_id@;
        let mut out: Vec<PlannedExpenseDto> = Vec::new();
        let mut i: usize = 0;
        proof {
            reveal(Seq::filter);
            assert(views.subrange(0, 0) =~= Seq::<PlanRowView<PlannedExpenseView>>::empty());
            assert(Seq::<PlanRowView<PlannedExpenseView>>::empty().filter(pred).map_values(
                |rv: PlanRowView<PlannedExpenseView>| rv.item,
            ) =~= Seq::<PlannedExpenseView>::empty());
            assert(out@.map_values(|x: PlannedExpenseDto| x@) =~= Seq::<
                PlannedExpenseView,
            >::empty());
        }
        while i < db.planned_expenses.len()
            invariant
                i <= db.planned_expenses@.len(),
                views == db.expenses_v(),
                pred == (|rv: PlanRowView<PlannedExpenseView>| rv.plan_id == plan_id@),
                out@.map_values(|x: PlannedExpenseDto| x@) == views.subrange(0, i as int).filter(
                    pred,
                ).map_values(|rv: PlanRowView<PlannedExpenseView>| rv.item),
            decreases db.planned_expenses@.len() - i,
        {
            let ghost prefix = views.subrange(0, i as int);
            let ghost prefix_next = views.subrange(0, i as int + 1);
            proof {
                reveal(Seq::filter);
                assert(prefix_next.drop_last() =~= prefix);
                assert(prefix_next.last() == views[i as int]);
            }
            if crate::strutil::str_eq(db.planned_expenses[i].plan_id.as_str(), plan_id) {
                let ghost out_before = out@;
                out.push(db.planned_expenses[i].item.clone());
                proof {
                    assert(pred(views[i as int]));
                    assert(prefix_next.filter(pred) =~= prefix.filter(pred).push(
                        views[i as int],
                    ));
                    let lhs = out@.map_values(|x: PlannedExpenseDto| x@);
                    let rhs = prefix_next.filter(pred).map_values(
                        |rv: PlanRowView<PlannedExpenseView>| rv.item,
                    );
                    assert(out@.len() == out_before.len() + 1);
                    assert(out_before.map_values(|x: PlannedExpenseDto| x@) == prefix.filter(
                        pred,
                    ).map_values(|rv: PlanRowView<PlannedExpenseView>| rv.item));
                    assert(out_before.map_values(|x: PlannedExpenseDto| x@).len()
                        == out_before.len());
                    assert(prefix.filter(pred).map_values(
                        |rv: PlanRowView<PlannedExpenseView>| rv.item,
                    ).len() == prefix.filter(pred).len());
                    assert(prefix_next.filter(pred).len() == prefix.filter(pred).len() + 1);
                    assert(lhs.len() == rhs.len());
                    assert forall|j: int| 0 <= j < lhs.len() implies lhs[j] == rhs[j] by {
                        if j < out_before.len() {
                            assert(out@[j] == out_before[j]);
                            assert(prefix_next.filter(pred)[j] == prefix.filter(pred)[j]);
                            assert(out_before.map_values(|x: PlannedExpenseDto| x@)[j]
                                == prefix.filter(pred).map_values(
                                |rv: PlanRowView<PlannedExpenseView>| rv.item,
                            )[j]);
                        } else {
                            assert(out@[j]@ == views[i as int].item);
                            assert(prefix_next.filter(pred)[j] == views[i as int]);
                        }
                    }
                    assert(lhs =~= rhs);
                }
            } else {
                proof {
                    reveal(Seq::filter);
                    assert(prefix_next.filter(pred) =~= prefix.filter(pred));
                }
            }
            i += 1;
        }
        proof {
            assert(views.subrange(0, views.len() as int) =~= views);
        }
        Ok(out)
    }

    /// Update every planned expense line with the input's identifier;
    /// absent fields keep the first matching line's values. When the
    /// expected amount changes, the plan's totals are brought back in
    /// sync.
    pub fn update_expense(&self, db: &mut Database, input: UpdatePlannedExpenseInput) -> (r:
        PlanningResult<PlannedExpenseDto>)
        requires
            db_wf(*old(db)),
        ensures
            db_wf(*final(db)),
            db_same_except_planning(*old(db), *final(db)),
            final(db).planned_incomes@ == old(db).planned_incomes@,
            final(db).planned_savings@ == old(db).planned_savings@,
            ({
                let found = spec_find_expense(old(db).expenses_v(), input.id@);
                let merged = spec_merged_expense(found->Some_0.item, input);
                let retotal = input.expected_amount_cents is Some
                    && input.expected_amount_cents->Some_0
                    != found->Some_0.item.expected_amount_cents;
                &&& (r is Ok <==> found is Some && planned_amounts_wf(
                    merged.expected_amount_cents,
                    merged.actual_amount_cents,
                ))
                &&& (r matches Err(e) ==> e is Validation && *final(db) == *old(db))
                &&& (r matches Ok(d) ==> {
                    &&& d@ == merged
                    &&& final(db).planned_expenses@.len() == old(db).planned_expenses@.len()
                    &&& (forall|j: int|
                        0 <= j < old(db).planned_expenses@.len()
                            ==> (#[trigger] final(db).planned_expenses@[j])@ == (
                        if old(db).planned_expenses@[j]@.item.id == input.id@ {
                            PlanRowView {
                                plan_id: old(db).planned_expenses@[j]@.plan_id,
                                item: merged,
                            }
                        } else {
                            old(db).planned_expenses@[j]@
                        }))
                    &&& (retotal ==> plans_totals_updated(
                        old(db).plans_v(),
                        final(db).plans_v(),
                        found->Some_0.plan_id,
                        spec_income_total(*final(db), found->Some_0.plan_id),
                        spec_expense_total(*final(db), found->Some_0.plan_id),
                        spec_saving_total(*final(db), found->Some_0.plan_id),
                    ))
                    &&& (!retotal ==> final(db).monthly_plans@ == old(db).monthly_plans@)
                })
            }),
    {
        let ghost views = old(db).expenses_v();
        let mut ix: usize = 0;
        let mut found = false;
        proof {
            assert(views.subrange(0, views.len() as int) =~= views);
        }
        while ix < db.planned_expenses.len() && !found
            invariant
                ix <= db.planned_expenses@.len(),
                db.planned_expenses@ == old(db).planned_expenses@,
                views == old(db).expenses_v(),
                !found ==> spec_find_expense(views, input.id@) == spec_find_expense(
                    views.subrange(ix as int, views.len() as int),
                    input.id@,
                ),
                found ==> ix < views.len() && spec_find_expense(views, input.id@) == Some(
                    views[ix as int],
                ) && views[ix as int].item.id == input.id@,
            decreases db.planned_expenses@.len() - ix, (
            if found {
                0int
            } else {
                1int
            }),
        {
            proof {
                let rest = views.subrange(ix as int, views.len() as int);
                assert(rest[0] == views[ix as int]);
                assert(rest.subrange(1, rest.len() as int) =~= views.subrange(
                    ix as int + 1,
                    views.len() as int,
                ));
            }
            if crate::strutil::str_eq(
                db.planned_expenses[ix].item.id.as_str(),
                input.id.as_str(),
            ) {
                found = true;
            } else {
                ix += 1;
            }
        }
        if !found {
            proof {
                assert(views.subrange(ix as int, views.len() as int).len() == 0);
            }
            return Err(PlanningError::Validation(String::from_str("expense not found")));
        }
        let existing = db.planned_expenses[ix].item.clone();
        let existing_plan = db.planned_expenses[ix].plan_id.clone();
        let merged = PlannedExpenseDto {
            id: existing.id.clone(),
            label: match &input.label {
                Some(v) => v.clone(),
                None => existing.label.clone(),
            },
            expected_amount_cents: match input.expected_amount_cents {
                Some(v) => v,
                None => existing.expected_amount_cents,
            },
            actual_amount_cents: match input.actual_amount_cents {
                Some(v) => v,
                None => existing.actual_amount_cents,
            },
            category_id: match &input.category_id {
                Some(v) => Some(v.clone()),
                None => crate::strutil::clone_opt_string(&existing.category_id),
            },
            frequency: match &input.frequency {
                Some(v) => v.clone(),
                None => existing.frequency.clone(),
            },
        };
        if merged.expected_amount_cents < 0 || merged.expected_amount_cents > MAX_MONEY_CENTS
            || merged.actual_amount_cents < 0 || merged.actual_amount_cents > MAX_MONEY_CENTS {
            return Err(PlanningError::Validation(String::from_str("invalid amount")));
        }
        let ghost orig = db.planned_expenses@;
        let mut i: usize = 0;
        while i < db.planned_expenses.len()
            invariant
                i <= db.planned_expenses@.len(),
                db.planned_expenses@.len() == orig.len(),
                merged@ == spec_merged_expense(
                    spec_find_expense(old(db).expenses_v(), input.id@)->Some_0.item,
                    input,
                ),
                forall|j: int| i <= j < orig.len() ==> db.planned_expenses@[j] == orig[j],
                forall|j: int|
                    0 <= j < i ==> (#[trigger] db.planned_expenses@[j])@ == (
                    if orig[j]@.item.id == input.id@ {
                        PlanRowView { plan_id: orig[j]@.plan_id, item: merged@ }
                    } else {
                        orig[j]@
                    }),
                db.debts@ == old(db).debts@,
                db.schedules@ == old(db).schedules@,
                db.reminders@ == old(db).reminders@,
                db.reminder_logs@ == old(db).reminder_logs@,
                db.transactions@ == old(db).transactions@,
                db.monthly_plans@ == old(db).monthly_plans@,
                db.planned_incomes@ == old(db).planned_incomes@,
                db.planned_savings@ == old(db).planned_savings@,
            decreases db.planned_expenses@.len() - i,
        {
            if crate::strutil::str_eq(
                db.planned_expenses[i].item.id.as_str(),
                input.id.as_str(),
            ) {
                let new_row = ({
                    let row = &db.planned_expenses[i];
                    PlannedExpenseRow { plan_id: row.plan_id.clone(), item: merged.clone() }
                });
                db.planned_expenses[i] = new_row;
            }
            i += 1;
        }
        let changed = match input.expected_amount_cents {
            Some(v) => v != existing.expected_amount_cents,
            None => false,
        };
        if changed {
            let ghost mid = *db;
            self.update_plan_totals(db, existing_plan.as_str());
            proof {
                assert(final(db).incomes_v() =~= mid.incomes_v());
                assert(final(db).expenses_v() =~= mid.expenses_v());
                assert(final(db).savings_v() =~= mid.savings_v());
                assert(spec_income_total(*final(db), existing_plan@) == spec_income_total(
                    mid,
                    existing_plan@,
                ));
                assert(spec_expense_total(*final(db), existing_plan@) == spec_expense_total(
                    mid,
                    existing_plan@,
                ));
                assert(spec_saving_total(*final(db), existing_plan@) == spec_saving_total(
                    mid,
                    existing_plan@,
                ));
            }
        }
        Ok(merged)
    }

    /// Delete every planned expense line with the input's identifier
    /// and, when one existed, bring its plan's totals back in sync.
    pub fn delete_expense(&self, db: &mut Database, input: DeletePlannedExpenseInput) -> (r:
        PlanningResult<()>)
        requires
            db_wf(*old(db)),
        ensures
            db_wf(*final(db)),
            db_same_except_planning(*old(db), *final(db)),
            final(db).planned_incomes@ == old(db).planned_incomes@,
            final(db).planned_savings@ == old(db).planned_savings@,
            r is Ok,
            ({
                let found = spec_find_expense(old(db).expenses_v(), input.id@);
                &&& final(db).expenses_v() == old(db).expenses_v().filter(
                    |rv: PlanRowView<PlannedExpenseView>| rv.item.id != input.id@,
                )
                &&& (found is Some ==> plans_totals_updated(
                    old(db).plans_v(),
                    final(db).plans_v(),
                    found->Some_0.plan_id,
                    spec_income_total(*final(db), found->Some_0.plan_id),
                    spec_expense_total(*final(db), found->Some_0.plan_id),
                    spec_saving_total(*final(db), found->Some_0.plan_id),
                ))
                &&& (found is None ==> final(db).monthly_plans@ == old(db).monthly_plans@)
            }),
    {
        let ghost views = old(db).expenses_v();
        let ghost pred = |rv: PlanRowView<PlannedExpenseView>| rv.item.id != input.id@;
        let mut plan_of_first: Option<String> = None;
        let mut ix: usize = 0;
        proof {
            assert(views.subrange(0, views.len() as int) =~= views);
        }
        while ix < db.planned_expenses.len() && plan_of_first.is_none()
            invariant
                ix <= db.planned_expenses@.len(),
                db.planned_expenses@ == old(db).planned_expenses@,
                views == old(db).expenses_v(),
                plan_of_first is None ==> spec_find_expense(views, input.id@)
                    == spec_find_expense(
                    views.subrange(ix as int, views.len() as int),
                    input.id@,
                ),
                plan_of_first matches Some(p) ==> spec_find_expense(views, input.id@) is Some
                    && p@ == spec_find_expense(views, input.id@)->Some_0.plan_id,
            decreases db.planned_expenses@.len() - ix, (
            if plan_of_first is None {
                1int
            } else {
                0int
            }),
        {
            proof {
                let rest = views.subrange(ix as int, views.len() as int);
                assert(rest[0] == views[ix as int]);
                assert(rest.subrange(1, rest.len() as int) =~= views.subrange(
                    ix as int + 1,
                    views.len() as int,
                ));
            }
            if crate::strutil::str_eq(
                db.planned_expenses[ix].item.id.as_str(),
                input.id.as_str(),
            ) {
                plan_of_first = Some(db.planned_expenses[ix].plan_id.clone());
            } else {
                ix += 1;
            }
        }
        proof {
            if plan_of_first is None {
                assert(views.subrange(ix as int, views.len() as int).len() == 0);
            }
        }
        let mut kept: Vec<PlannedExpenseRow> = Vec::new();
        let mut i: usize = 0;
        proof {
            reveal(Seq::filter);
            assert(views.subrange(0, 0) =~= Seq::<PlanRowView<PlannedExpenseView>>::empty());
            assert(Seq::<PlanRowView<PlannedExpenseView>>::empty().filter(pred) =~= Seq::<
                PlanRowView<PlannedExpenseView>,
            >::empty());
        }
        while i < db.planned_expenses.len()
            invariant
                i <= db.planned_expenses@.len(),
                db.planned_expenses@ == old(db).planned_expenses@,
                views == old(db).expenses_v(),
                pred == (|rv: PlanRowView<PlannedExpenseView>| rv.item.id != input.id@),
                kept@.map_values(|x: PlannedExpenseRow| x@) == views.subrange(0, i as int).filter(
                    pred,
                ),
            decreases db.planned_expenses@.len() - i,
        {
            let ghost prefix = views.subrange(0, i as int);
            let ghost prefix_next = views.subrange(0, i as int + 1);
            proof {
                reveal(Seq::filter);
                assert(prefix_next.drop_last() =~= prefix);
                assert(prefix_next.last() == views[i as int]);
            }
            if !crate::strutil::str_eq(
                db.planned_expenses[i].item.id.as_str(),
                input.id.as_str(),
            ) {
                let row = &db.planned_expenses[i];
                kept.push(
                    PlannedExpenseRow { plan_id: row.plan_id.clone(), item: row.item.clone() },
                );
            }
            i += 1;
            proof {
                reveal(Seq::filter);
                assert(kept@.map_values(|x: PlannedExpenseRow| x@) =~= prefix_next.filter(pred));
            }
        }
        db.planned_expenses = kept;
        proof {
            assert(views.subrange(0, views.len() as int) =~= views);
            assert(db.expenses_v() =~= views.filter(pred));
            assert forall|j: int| 0 <= j < db.planned_expenses@.len() implies planned_amounts_wf(
                (#[trigger] db.planned_expenses@[j])@.item.expected_amount_cents,
                db.planned_expenses@[j]@.item.actual_amount_cents,
            ) by {
                assert(db.planned_expenses@[j]@ == db.expenses_v()[j]);
                crate::database::lemma_filter_elements_contained(views, pred, j);
                let rv = views.filter(pred)[j];
                let k = choose|k: int| 0 <= k < views.len() && views[k] == rv;
                assert(old(db).planned_expenses@[k]@ == views[k]);
                assert(planned_amounts_wf(
                    old(db).planned_expenses@[k]@.item.expected_amount_cents,
                    old(db).planned_expenses@[k]@.item.actual_amount_cents,
                ));
            }
        }
        if let Some(plan_id) = &plan_of_first {
            let ghost mid = *db;
            self.update_plan_totals(db, plan_id.as_str());
            proof {
                assert(final(db).incomes_v() =~= mid.incomes_v());
                assert(final(db).expenses_v() =~= mid.expenses_v());
                assert(final(db).savings_v() =~= mid.savings_v());
                assert(spec_income_total(*final(db), plan_id@) == spec_income_total(mid, plan_id@));
                assert(spec_expense_total(*final(db), plan_id@) == spec_expense_total(
                    mid,
                    plan_id@,
                ));
                assert(spec_saving_total(*final(db), plan_id@) == spec_saving_total(mid, plan_id@));
            }
        }
        Ok(())
    }
}

impl PlanningService {
    /// Add a planned saving line to a plan and bring the plan's totals
    /// back in sync.
    pub fn add_planned_saving(&self, db: &mut Database, input: AddPlannedSavingInput) -> (r:
        PlanningResult<PlannedSavingDto>)
        requires
            db_wf(*old(db)),
        ensures
            db_wf(*final(db)),
            db_same_except_planning(*old(db), *final(db)),
            final(db).planned_incomes@ == old(db).planned_incomes@,
            final(db).planned_expenses@ == old(db).planned_expenses@,
            r is Ok <==> 0 <= input.expected_amount_cents <= MAX_MONEY_CENTS,
            r matches Err(e) ==> e is Validation && *final(db) == *old(db),
            r matches Ok(d) ==> ({
                &&& d@.goal_id == view_opt_str(input.goal_id)
                &&& d@.expected_amount_cents == input.expected_amount_cents
                &&& d@.actual_amount_cents == 0
                &&& final(db).savings_v() == old(db).savings_v().push(
                    PlanRowView { plan_id: input.monthly_plan_id@, item: d@ },
                )
                &&& plans_totals_updated(
                    old(db).plans_v(),
                    final(db).plans_v(),
                    input.monthly_plan_id@,
                    spec_income_total(*final(db), input.monthly_plan_id@),
                    spec_expense_total(*final(db), input.monthly_plan_id@),
                    spec_saving_total(*final(db), input.monthly_plan_id@),
                )
            }),
    {
        if input.expected_amount_cents < 0 || input.expected_amount_cents > MAX_MONEY_CENTS {
            return Err(PlanningError::Validation(String::from_str("invalid amount")));
        }
        let id = fresh_uuid();
        let plan_id = input.monthly_plan_id;
        let item = PlannedSavingDto {
            id: id,
            goal_id: input.goal_id,
            expected_amount_cents: input.expected_amount_cents,
            actual_amount_cents: 0,
        };
        let result = item.clone();
        db.planned_savings.push(PlannedSavingRow { plan_id: plan_id.clone(), item: item });
        let ghost mid = *db;
        proof {
            assert(db.savings_v() =~= old(db).savings_v().push(
                PlanRowView { plan_id: plan_id@, item: result@ },
            ));
        }
        self.update_plan_totals(db, plan_id.as_str());
        proof {
            assert(final(db).incomes_v() =~= mid.incomes_v());
            assert(final(db).savings_v() =~= mid.savings_v());
            assert(final(db).savings_v() =~= mid.savings_v());
            assert(spec_income_total(*final(db), plan_id@) == spec_income_total(mid, plan_id@));
            assert(spec_expense_total(*final(db), plan_id@) == spec_expense_total(mid, plan_id@));
            assert(spec_saving_total(*final(db), plan_id@) == spec_saving_total(mid, plan_id@));
        }
        Ok(result)
    }

    /// The saving lines of one plan, in insertion order.
    pub fn list_savings(&self, db: &Database, plan_id: &str) -> (r: PlanningResult<
        Vec<PlannedSavingDto>,
    >)
        ensures
            r is Ok,
            r->Ok_0@.map_values(|x: PlannedSavingDto| x@) == db.savings_v().filter(
                |rv: PlanRowView<PlannedSavingView>| rv.plan_id == plan_id@,
            ).map_values(|rv: PlanRowView<PlannedSavingView>| rv.item),
    {
        let ghost views = db.savings_v();
        let ghost pred = |rv: PlanRowView<PlannedSavingView>| rv.plan_id == plan_id@;
        let mut out: Vec<PlannedSavingDto> = Vec::new();
        let mut i: usize = 0;
        proof {
            reveal(Seq::filter);
            assert(views.subrange(0, 0) =~= Seq::<PlanRowView<PlannedSavingView>>::empty());
            assert(Seq::<PlanRowView<PlannedSavingView>>::empty().filter(pred).map_values(
                |rv: PlanRowView<PlannedSavingView>| rv.item,
            ) =~= Seq::<PlannedSavingView>::empty());
            assert(out@.map_values(|x: PlannedSavingDto| x@) =~= Seq::<
                PlannedSavingView,
            >::empty());
        }
        while i < db.planned_savings.len()
            invariant
                i <= db.planned_savings@.len(),
                views == db.savings_v(),
                pred == (|rv: PlanRowView<PlannedSavingView>| rv.plan_id == plan_id@),
                out@.map_values(|x: PlannedSavingDto| x@) == views.subrange(0, i as int).filter(
                    pred,
                ).map_values(|rv: PlanRowView<PlannedSavingView>| rv.item),
            decreases db.planned_savings@.len() - i,
        {
            let ghost prefix = views.subrange(0, i as int);
            let ghost prefix_next = views.subrange(0, i as int + 1);
            proof {
                reveal(Seq::filter);
                assert(prefix_next.drop_last() =~= prefix);
                assert(prefix_next.last() == views[i as int]);
            }
            if crate::strutil::str_eq(db.planned_savings[i].plan_id.as_str(), plan_id) {
                let ghost out_before = out@;
                out.push(db.planned_savings[i].item.clone());
                proof {
                    assert(pred(views[i as int]));
                    assert(prefix_next.filter(pred) =~= prefix.filter(pred).push(
                        views[i as int],
                    ));
                    let lhs = out@.map_values(|x: PlannedSavingDto| x@);
                    let rhs = prefix_next.filter(pred).map_values(
                        |rv: PlanRowView<PlannedSavingView>| rv.item,
                    );
                    assert(out@.len() == out_before.len() + 1);
                    assert(out_before.map_values(|x: PlannedSavingDto| x@) == prefix.filter(
                        pred,
                    ).map_values(|rv: PlanRowView<PlannedSavingView>| rv.item));
                    assert(out_before.map_values(|x: PlannedSavingDto| x@).len()
                        == out_before.len());
                    assert(prefix.filter(pred).map_values(
                        |rv: PlanRowView<PlannedSavingView>| rv.item,
                    ).len() == prefix.filter(pred).len());
                    assert(prefix_next.filter(pred).len() == prefix.filter(pred).len() + 1);
                    assert(lhs.len() == rhs.len());
                    assert forall|j: int| 0 <= j < lhs.len() implies lhs[j] == rhs[j] by {
                        if j < out_before.len() {
                            assert(out@[j] == out_before[j]);
                            assert(prefix_next.filter(pred)[j] == prefix.filter(pred)[j]);
                            assert(out_before.map_values(|x: PlannedSavingDto| x@)[j]
                                == prefix.filter(pred).map_values(
                                |rv: PlanRowView<PlannedSavingView>| rv.item,
                            )[j]);
                        } else {
                            assert(out@[j]@ == views[i as int].item);
                            assert(prefix_next.filter(pred)[j] == views[i as int]);
                        }
                    }
                    assert(lhs =~= rhs);
                }
            } else {
                proof {
                    reveal(Seq::filter);
                    assert(prefix_next.filter(pred) =~= prefix.filter(pred));
                }
            }
            i += 1;
        }
        proof {
            assert(views.subrange(0, views.len() as int) =~= views);
        }
        Ok(out)
    }

    /// Update every planned saving line with the input's identifier;
    /// absent fields keep the first matching line's values. When the
    /// expected amount changes, the plan's totals are brought back in
    /// sync.
    pub fn update_saving(&self, db: &mut Database, input: UpdatePlannedSavingInput) -> (r:
        PlanningResult<PlannedSavingDto>)
        requires
            db_wf(*old(db)),
        ensures
            db_wf(*final(db)),
            db_same_except_planning(*old(db), *final(db)),
            final(db).planned_incomes@ == old(db).planned_incomes@,
            final(db).planned_expenses@ == old(db).planned_expenses@,
            ({
                let found = spec_find_saving(old(db).savings_v(), input.id@);
                let merged = spec_merged_saving(found->Some_0.item, input);
                let retotal = input.expected_amount_cents is Some
                    && input.expected_amount_cents->Some_0
                    != found->Some_0.item.expected_amount_cents;
                &&& (r is Ok <==> found is Some && planned_amounts_wf(
                    merged.expected_amount_cents,
                    merged.actual_amount_cents,
                ))
                &&& (r matches Err(e) ==> e is Validation && *final(db) == *old(db))
                &&& (r matches Ok(d) ==> {
                    &&& d@ == merged
                    &&& final(db).planned_savings@.len() == old(db).planned_savings@.len()
                    &&& (forall|j: int|
                        0 <= j < old(db).planned_savings@.len()
                            ==> (#[trigger] final(db).planned_savings@[j])@ == (
                        if old(db).planned_savings@[j]@.item.id == input.id@ {
                            PlanRowView {
                                plan_id: old(db).planned_savings@[j]@.plan_id,
                                item: merged,
                            }
                        } else {
                            old(db).planned_savings@[j]@
                        }))
                    &&& (retotal ==> plans_totals_updated(
                        old(db).plans_v(),
                        final(db).plans_v(),
                        found->Some_0.plan_id,
                        spec_income_total(*final(db), found->Some_0.plan_id),
                        spec_expense_total(*final(db), found->Some_0.plan_id),
                        spec_saving_total(*final(db), found->Some_0.plan_id),
                    ))
                    &&& (!retotal ==> final(db).monthly_plans@ == old(db).monthly_plans@)
                })
            }),
    {
        let ghost views = old(db).savings_v();
        let mut ix: usize = 0;
        let mut found = false;
        proof {
            assert(views.subrange(0, views.len() as int) =~= views);
        }
        while ix < db.planned_savings.len() && !found
            invariant
                ix <= db.planned_savings@.len(),
                db.planned_savings@ == old(db).planned_savings@,
                views == old(db).savings_v(),
                !found ==> spec_find_saving(views, input.id@) == spec_find_saving(
                    views.subrange(ix as int, views.len() as int),
                    input.id@,
                ),
                found ==> ix < views.len() && spec_find_saving(views, input.id@) == Some(
                    views[ix as int],
                ) && views[ix as int].item.id == input.id@,
            decreases db.planned_savings@.len() - ix, (
            if found {
                0int
            } else {
                1int
            }),
        {
            proof {
                let rest = views.subrange(ix as int, views.len() as int);
                assert(rest[0] == views[ix as int]);
                assert(rest.subrange(1, rest.len() as int) =~= views.subrange(
                    ix as int + 1,
                    views.len() as int,
                ));
            }
            if crate::strutil::str_eq(
                db.planned_savings[ix].item.id.as_str(),
                input.id.as_str(),
            ) {
                found = true;
            } else {
                ix += 1;
            }
        }
        if !found {
            proof {
                assert(views.subrange(ix as int, views.len() as int).len() == 0);
            }
            return Err(PlanningError::Validation(String::from_str("saving not found")));
        }
        let existing = db.planned_savings[ix].item.clone();
        let existing_plan = db.planned_savings[ix].plan_id.clone();
        let merged = PlannedSavingDto {
            id: existing.id.clone(),
            goal_id: match &input.goal_id {
                Some(v) => Some(v.clone()),
                None => crate::strutil::clone_opt_string(&existing.goal_id),
            },
            expected_amount_cents: match input.expected_amount_cents {
                Some(v) => v,
                None => existing.expected_amount_cents,
            },
            actual_amount_cents: match input.actual_amount_cents {
                Some(v) => v,
                None => existing.actual_amount_cents,
            },
        };
        if merged.expected_amount_cents < 0 || merged.expected_amount_cents > MAX_MONEY_CENTS
            || merged.actual_amount_cents < 0 || merged.actual_amount_cents > MAX_MONEY_CENTS {
            return Err(PlanningError::Validation(String::from_str("invalid amount")));
        }
        let ghost orig = db.planned_savings@;
        let mut i: usize = 0;
        while i < db.planned_savings.len()
            invariant
                i <= db.planned_savings@.len(),
                db.planned_savings@.len() == orig.len(),
                merged@ == spec_merged_saving(
                    spec_find_saving(old(db).savings_v(), input.id@)->Some_0.item,
                    input,
                ),
                forall|j: int| i <= j < orig.len() ==> db.planned_savings@[j] == orig[j],
                forall|j: int|
                    0 <= j < i ==> (#[trigger] db.planned_savings@[j])@ == (
                    if orig[j]@.item.id == input.id@ {
                        PlanRowView { plan_id: orig[j]@.plan_id, item: merged@ }
                    } else {
                        orig[j]@
                    }),
                db.debts@ == old(db).debts@,
                db.schedules@ == old(db).schedules@,
                db.reminders@ == old(db).reminders@,
                db.reminder_logs@ == old(db).reminder_logs@,
                db.transactions@ == old(db).transactions@,
                db.monthly_plans@ == old(db).monthly_plans@,
                db.planned_incomes@ == old(db).planned_incomes@,
                db.planned_expenses@ == old(db).planned_expenses@,
            decreases db.planned_savings@.len() - i,
        {
            if crate::strutil::str_eq(
                db.planned_savings[i].item.id.as_str(),
                input.id.as_str(),
            ) {
                let new_row = ({
                    let row = &db.planned_savings[i];
                    PlannedSavingRow { plan_id: row.plan_id.clone(), item: merged.clone() }
                });
                db.planned_savings[i] = new_row;
            }
            i += 1;
        }
        let changed = match input.expected_amount_cents {
            Some(v) => v != existing.expected_amount_cents,
            None => false,
        };
        if changed {
            let ghost mid = *db;
            self.update_plan_totals(db, existing_plan.as_str());
            proof {
                assert(final(db).incomes_v() =~= mid.incomes_v());
                assert(final(db).savings_v() =~= mid.savings_v());
                assert(final(db).savings_v() =~= mid.savings_v());
                assert(spec_income_total(*final(db), existing_plan@) == spec_income_total(
                    mid,
                    existing_plan@,
                ));
                assert(spec_expense_total(*final(db), existing_plan@) == spec_expense_total(
                    mid,
                    existing_plan@,
                ));
                assert(spec_saving_total(*final(db), existing_plan@) == spec_saving_total(
                    mid,
                    existing_plan@,
                ));
            }
        }
        Ok(merged)
    }

    /// Delete every planned saving line with the input's identifier
    /// and, when one existed, bring its plan's totals back in sync.
    pub fn delete_saving(&self, db: &mut Database, input: DeletePlannedSavingInput) -> (r:
        PlanningResult<()>)
        requires
            db_wf(*old(db)),
        ensures
            db_wf(*final(db)),
            db_same_except_planning(*old(db), *final(db)),
            final(db).planned_incomes@ == old(db).planned_incomes@,
            final(db).planned_expenses@ == old(db).planned_expenses@,
            r is Ok,
            ({
                let found = spec_find_saving(old(db).savings_v(), input.id@);
                &&& final(db).savings_v() == old(db).savings_v().filter(
                    |rv: PlanRowView<PlannedSavingView>| rv.item.id != input.id@,
                )
                &&& (found is Some ==> plans_totals_updated(
                    old(db).plans_v(),
                    final(db).plans_v(),
                    found->Some_0.plan_id,
                    spec_income_total(*final(db), found->Some_0.plan_id),
                    spec_expense_total(*final(db), found->Some_0.plan_id),
                    spec_saving_total(*final(db), found->Some_0.plan_id),
                ))
                &&& (found is None ==> final(db).monthly_plans@ == old(db).monthly_plans@)
            }),
    {
        let ghost views = old(db).savings_v();
        let ghost pred = |rv: PlanRowView<PlannedSavingView>| rv.item.id != input.id@;
        let mut plan_of_first: Option<String> = None;
        let mut ix: usize = 0;
        proof {
            assert(views.subrange(0, views.len() as int) =~= views);
        }
        while ix < db.planned_savings.len() && plan_of_first.is_none()
            invariant
                ix <= db.planned_savings@.len(),
                db.planned_savings@ == old(db).planned_savings@,
                views == old(db).savings_v(),
                plan_of_first is None ==> spec_find_saving(views, input.id@)
                    == spec_find_saving(
                    views.subrange(ix as int, views.len() as int),
                    input.id@,
                ),
                plan_of_first matches Some(p) ==> spec_find_saving(views, input.id@) is Some
                    && p@ == spec_find_saving(views, input.id@)->Some_0.plan_id,
            decreases db.planned_savings@.len() - ix, (
            if plan_of_first is None {
                1int
            } else {
                0int
            }),
        {
            proof {
                let rest = views.subrange(ix as int, views.len() as int);
                assert(rest[0] == views[ix as int]);
                assert(rest.subrange(1, rest.len() as int) =~= views.subrange(
                    ix as int + 1,
                    views.len() as int,
                ));
            }
            if crate::strutil::str_eq(
                db.planned_savings[ix].item.id.as_str(),
                input.id.as_str(),
            ) {
                plan_of_first = Some(db.planned_savings[ix].plan_id.clone());
            } else {
                ix += 1;
            }
        }
        proof {
            if plan_of_first is None {
                assert(views.subrange(ix as int, views.len() as int).len() == 0);
            }
        }
        let mut kept: Vec<PlannedSavingRow> = Vec::new();
        let mut i: usize = 0;
        proof {
            reveal(Seq::filter);
            assert(views.subrange(0, 0) =~= Seq::<PlanRowView<PlannedSavingView>>::empty());
            assert(Seq::<PlanRowView<PlannedSavingView>>::empty().filter(pred) =~= Seq::<
                PlanRowView<PlannedSavingView>,
            >::empty());
        }
        while i < db.planned_savings.len()
            invariant
                i <= db.planned_savings@.len(),
                db.planned_savings@ == old(db).planned_savings@,
                views == old(db).savings_v(),
                pred == (|rv: PlanRowView<PlannedSavingView>| rv.item.id != input.id@),
                kept@.map_values(|x: PlannedSavingRow| x@) == views.subrange(0, i as int).filter(
                    pred,
                ),
            decreases db.planned_savings@.len() - i,
        {
            let ghost prefix = views.subrange(0, i as int);
            let ghost prefix_next = views.subrange(0, i as int + 1);
            proof {
                reveal(Seq::filter);
                assert(prefix_next.drop_last() =~= prefix);
                assert(prefix_next.last() == views[i as int]);
            }
            if !crate::strutil::str_eq(
                db.planned_savings[i].item.id.as_str(),
                input.id.as_str(),
            ) {
                let row = &db.planned_savings[i];
                kept.push(
                    PlannedSavingRow { plan_id: row.plan_id.clone(), item: row.item.clone() },
                );
            }
            i += 1;
            proof {
                reveal(Seq::filter);
                assert(kept@.map_values(|x: PlannedSavingRow| x@) =~= prefix_next.filter(pred));
            }
        }
        db.planned_savings = kept;
        proof {
            assert(views.subrange(0, views.len() as int) =~= views);
            assert(db.savings_v() =~= views.filter(pred));
            assert forall|j: int| 0 <= j < db.planned_savings@.len() implies planned_amounts_wf(
                (#[trigger] db.planned_savings@[j])@.item.expected_amount_cents,
                db.planned_savings@[j]@.item.actual_amount_cents,
            ) by {
                assert(db.planned_savings@[j]@ == db.savings_v()[j]);
                crate::database::lemma_filter_elements_contained(views, pred, j);
                let rv = views.filter(pred)[j];
                let k = choose|k: int| 0 <= k < views.len() && views[k] == rv;
                assert(old(db).planned_savings@[k]@ == views[k]);
                assert(planned_amounts_wf(
                    old(db).planned_savings@[k]@.item.expected_amount_cents,
                    old(db).planned_savings@[k]@.item.actual_amount_cents,
                ));
            }
        }
        if let Some(plan_id) = &plan_of_first {
            let ghost mid = *db;
            self.update_plan_totals(db, plan_id.as_str());
            proof {
                assert(final(db).incomes_v() =~= mid.incomes_v());
                assert(final(db).savings_v() =~= mid.savings_v());
                assert(final(db).savings_v() =~= mid.savings_v());
                assert(spec_income_total(*final(db), plan_id@) == spec_income_total(mid, plan_id@));
                assert(spec_expense_total(*final(db), plan_id@) == spec_expense_total(
                    mid,
                    plan_id@,
                ));
                assert(spec_saving_total(*final(db), plan_id@) == spec_saving_total(mid, plan_id@));
            }
        }
        Ok(())
    }
}



/// The first stored monthly plan carrying `id`, if any.
pub open spec fn spec_find_plan(rows: Seq<MonthlyPlanView>, id: Seq<char>) -> Option<
    MonthlyPlanView,
>
    decreases rows.len(),
{
    if rows.len() == 0 {
        None
    } else if rows[0].id == id {
        Some(rows[0])
    } else {
        spec_find_plan(rows.subrange(1, rows.len() as int), id)
    }
}

/// Whether a transaction of this kind occurred inside `[start, end)`,
/// comparing the stored date texts lexicographically (exact for
/// `YYYY-MM-DD` texts).
pub open spec fn txn_in_window(
    t: crate::services::transactions::TransactionView,
    kind: crate::services::transactions::TransactionKind,
    start: Seq<char>,
    end: Seq<char>,
) -> bool {
    &&& t.kind == kind
    &&& (crate::strutil::spec_str_lt(start, t.occurred_on) || start == t.occurred_on)
    &&& crate::strutil::spec_str_lt(t.occurred_on, end)
}

/// The ledger's total for one kind of transaction inside `[start, end)`.
pub open spec fn spec_txn_total(
    db: Database,
    kind: crate::services::transactions::TransactionKind,
    start: Seq<char>,
    end: Seq<char>,
) -> int {
    spec_total_cents(
        db.transactions_v().filter(
            |t: crate::services::transactions::TransactionView| txn_in_window(t, kind, start, end),
        ).map_values(|t: crate::services::transactions::TransactionView| t.amount_cents),
    )
}

/// The plan's realised savings: the actual amounts of its saving lines.
pub open spec fn spec_saving_actual_total(db: Database, plan: Seq<char>) -> int {
    spec_total_cents(
        db.savings_v().filter(|r: PlanRowView<PlannedSavingView>| r.plan_id == plan).map_values(
            |r: PlanRowView<PlannedSavingView>| r.item.actual_amount_cents,
        ),
    )
}

impl PlanningService {
    /// Saturating sum of one kind of transaction inside `[start, end)`.
    fn txn_total(
        &self,
        rows: &Vec<crate::services::transactions::TransactionDto>,
        kind: crate::services::transactions::TransactionKind,
        start: &str,
        end: &str,
    ) -> (t: i64)
        requires
            forall|j: int| 0 <= j < rows@.len() ==> (#[trigger] rows@[j]).amount_cents >= 0,
        ensures
            t as int == spec_total_cents(
                rows@.map_values(|x: crate::services::transactions::TransactionDto| x@).filter(
                    |tv: crate::services::transactions::TransactionView| txn_in_window(
                        tv,
                        kind,
                        start@,
                        end@,
                    ),
                ).map_values(|tv: crate::services::transactions::TransactionView| tv.amount_cents),
            ),
    {
        let ghost views = rows@.map_values(|x: crate::services::transactions::TransactionDto| x@);
        let ghost pred = |tv: crate::services::transactions::TransactionView| txn_in_window(
            tv,
            kind,
            start@,
            end@,
        );
        let ghost amount_of = |tv: crate::services::transactions::TransactionView| tv.amount_cents;
        let mut acc: i64 = 0;
        let mut i: usize = 0;
        proof {
            reveal(Seq::filter);
            assert(views.subrange(0, 0) =~= Seq::<
                crate::services::transactions::TransactionView,
            >::empty());
            assert(Seq::<crate::services::transactions::TransactionView>::empty().filter(
                pred,
            ).map_values(amount_of) =~= Seq::<i64>::empty());
        }
        while i < rows.len()
            invariant
                i <= rows@.len(),
                views == rows@.map_values(|x: crate::services::transactions::TransactionDto| x@),
                forall|j: int| 0 <= j < rows@.len() ==> (#[trigger] rows@[j]).amount_cents >= 0,
                acc >= 0,
                pred == (|tv: crate::services::transactions::TransactionView| txn_in_window(
                    tv,
                    kind,
                    start@,
                    end@,
                )),
                amount_of == (
                |tv: crate::services::transactions::TransactionView| tv.amount_cents),
                acc as int == spec_total_cents(
                    views.subrange(0, i as int).filter(pred).map_values(amount_of),
                ),
            decreases rows@.len() - i,
        {
            let ghost prefix = views.subrange(0, i as int);
            let ghost prefix_next = views.subrange(0, i as int + 1);
            proof {
                reveal(Seq::filter);
                assert(prefix_next.drop_last() =~= prefix);
                assert(prefix_next.last() == views[i as int]);
            }
            let row = &rows[i];
            let in_window = row.kind == kind && crate::strutil::str_le(start, row.occurred_on.as_str())
                && crate::strutil::str_lt(row.occurred_on.as_str(), end);
            if in_window {
                let x = row.amount_cents;
                acc = if acc > i64::MAX - x {
                    i64::MAX
                } else {
                    acc + x
                };
                proof {
                    assert(pred(views[i as int]));
                    let mapped = prefix.filter(pred).map_values(amount_of);
                    assert(prefix_next.filter(pred) =~= prefix.filter(pred).push(
                        views[i as int],
                    ));
                    assert(prefix_next.filter(pred).map_values(amount_of) =~= mapped.push(x));
                    assert(mapped.push(x).drop_last() =~= mapped);
                }
            } else {
                proof {
                    reveal(Seq::filter);
                    assert(!pred(views[i as int]));
                    assert(prefix_next.filter(pred) =~= prefix.filter(pred));
                }
            }
            i += 1;
        }
        proof {
            assert(views.subrange(0, views.len() as int) =~= views);
        }
        acc
    }

    /// Saturating sum of the actual amounts of a plan's saving lines.
    fn saving_actual(&self, rows: &Vec<PlannedSavingRow>, plan_id: &str) -> (t: i64)
        requires
            forall|j: int|
                0 <= j < rows@.len() ==> (#[trigger] rows@[j])@.item.actual_amount_cents >= 0,
        ensures
            t as int == spec_total_cents(
                rows@.map_values(|x: PlannedSavingRow| x@).filter(
                    |r: PlanRowView<PlannedSavingView>| r.plan_id == plan_id@,
                ).map_values(|r: PlanRowView<PlannedSavingView>| r.item.actual_amount_cents),
            ),
    {
        let ghost views = rows@.map_values(|x: PlannedSavingRow| x@);
        let ghost pred = |r: PlanRowView<PlannedSavingView>| r.plan_id == plan_id@;
        let ghost amount_of = |r: PlanRowView<PlannedSavingView>| r.item.actual_amount_cents;
        let mut acc: i64 = 0;
        let mut i: usize = 0;
        proof {
            reveal(Seq::filter);
            assert(views.subrange(0, 0) =~= Seq::<PlanRowView<PlannedSavingView>>::empty());
            assert(Seq::<PlanRowView<PlannedSavingView>>::empty().filter(pred).map_values(
                amount_of,
            ) =~= Seq::<i64>::empty());
        }
        while i < rows.len()
            invariant
                i <= rows@.len(),
                views == rows@.map_values(|x: PlannedSavingRow| x@),
                forall|j: int|
                    0 <= j < rows@.len() ==> (#[trigger] rows@[j])@.item.actual_amount_cents
                        >= 0,
                acc >= 0,
                pred == (|r: PlanRowView<PlannedSavingView>| r.plan_id == plan_id@),
                amount_of == (|r: PlanRowView<PlannedSavingView>| r.item.actual_amount_cents),
                acc as int == spec_total_cents(
                    views.subrange(0, i as int).filter(pred).map_values(amount_of),
                ),
            decreases rows@.len() - i,
        {
            let ghost prefix = views.subrange(0, i as int);
            let ghost prefix_next = views.subrange(0, i as int + 1);
            proof {
                reveal(Seq::filter);
                assert(prefix_next.drop_last() =~= prefix);
                assert(prefix_next.last() == views[i as int]);
            }
            if crate::strutil::str_eq(rows[i].plan_id.as_str(), plan_id) {
                let x = rows[i].item.actual_amount_cents;
                acc = if acc > i64::MAX - x {
                    i64::MAX
                } else {
                    acc + x
                };
                proof {
                    let mapped = prefix.filter(pred).map_values(amount_of);
                    assert(prefix_next.filter(pred) =~= prefix.filter(pred).push(
                        views[i as int],
                    ));
                    assert(prefix_next.filter(pred).map_values(amount_of) =~= mapped.push(x));
                    assert(mapped.push(x).drop_last() =~= mapped);
                }
            } else {
                proof {
                    reveal(Seq::filter);
                    assert(prefix_next.filter(pred) =~= prefix.filter(pred));
                }
            }
            i += 1;
        }
        proof {
            assert(views.subrange(0, views.len() as int) =~= views);
        }
        acc
    }

    /// Planned against actual figures for one monthly plan: planned
    /// sums come from the plan's lines; actual income and expenses come
    /// from the ledger inside the plan's month; actual savings from the
    /// saving lines' recorded amounts.
    pub fn plan_vs_actual(&self, db: &Database, plan_id: &str) -> (r: PlanningResult<
        PlanActualSummary,
    >)
        requires
            db_wf(*db),
        ensures
            ({
                let found = spec_find_plan(db.plans_v(), plan_id@);
                let month_ok = found is Some
                    && crate::calendar::spec_parse_iso_date(found->Some_0.month) is Some && !(
                crate::calendar::spec_parse_iso_date(found->Some_0.month)->Some_0.year == 9999
                    && crate::calendar::spec_parse_iso_date(found->Some_0.month)->Some_0.month
                    == 12);
                &&& (r is Ok <==> month_ok)
                &&& (r matches Err(e) ==> e is Validation)
                &&& (r matches Ok(summary) ==> {
                    let start = found->Some_0.month;
                    let end = spec_date_string(
                        spec_next_month(
                            crate::calendar::spec_parse_iso_date(found->Some_0.month)->Some_0,
                        ),
                    );
                    &&& summary.plan_id@ == plan_id@
                    &&& summary.planned_income_cents as int == spec_income_total(*db, plan_id@)
                    &&& summary.planned_expenses_cents as int == spec_expense_total(*db, plan_id@)
                    &&& summary.planned_savings_cents as int == spec_saving_total(*db, plan_id@)
                    &&& summary.actual_income_cents as int == spec_txn_total(
                        *db,
                        crate::services::transactions::TransactionKind::Income,
                        start,
                        end,
                    )
                    &&& summary.actual_expenses_cents as int == spec_txn_total(
                        *db,
                        crate::services::transactions::TransactionKind::Expense,
                        start,
                        end,
                    )
                    &&& summary.actual_savings_cents as int == spec_saving_actual_total(
                        *db,
                        plan_id@,
                    )
                })
            }),
    {
        let ghost views = db.plans_v();
        let mut ix: usize = 0;
        let mut found = false;
        proof {
            assert(views.subrange(0, views.len() as int) =~= views);
        }
        while ix < db.monthly_plans.len() && !found
            invariant
                ix <= db.monthly_plans@.len(),
                views == db.plans_v(),
                !found ==> spec_find_plan(views, plan_id@) == spec_find_plan(
                    views.subrange(ix as int, views.len() as int),
                    plan_id@,
                ),
                found ==> ix < views.len() && spec_find_plan(views, plan_id@) == Some(
                    views[ix as int],
                ),
            decreases db.monthly_plans@.len() - ix, (
            if found {
                0int
            } else {
                1int
            }),
        {
            proof {
                let rest = views.subrange(ix as int, views.len() as int);
                assert(rest[0] == views[ix as int]);
                assert(rest.subrange(1, rest.len() as int) =~= views.subrange(
                    ix as int + 1,
                    views.len() as int,
                ));
            }
            if crate::strutil::str_eq(db.monthly_plans[ix].id.as_str(), plan_id) {
                found = true;
            } else {
                ix += 1;
            }
        }
        if !found {
            proof {
                assert(views.subrange(ix as int, views.len() as int).len() == 0);
            }
            return Err(PlanningError::Validation(String::from_str("plan not found")));
        }
        let month = db.monthly_plans[ix].month.clone();
        let month_date = match crate::calendar::parse_iso_date(month.as_str()) {
            Some(d) => d,
            None => {
                return Err(PlanningError::Validation(String::from_str("invalid month")));
            },
        };
        if month_date.year == 9999 && month_date.month == 12 {
            return Err(PlanningError::Validation(String::from_str("invalid month")));
        }
        let end = date_string(next_month(month_date));
        let planned_income = self.income_total(&db.planned_incomes, plan_id);
        let planned_expenses = self.expense_total(&db.planned_expenses, plan_id);
        let planned_savings = self.saving_total(&db.planned_savings, plan_id);
        let actual_income = self.txn_total(
            &db.transactions,
            crate::services::transactions::TransactionKind::Income,
            month.as_str(),
            end.as_str(),
        );
        let actual_expenses = self.txn_total(
            &db.transactions,
            crate::services::transactions::TransactionKind::Expense,
            month.as_str(),
            end.as_str(),
        );
        let actual_savings = self.saving_actual(&db.planned_savings, plan_id);
        Ok(
            PlanActualSummary {
                plan_id: String::from_str(plan_id),
                planned_income_cents: planned_income,
                actual_income_cents: actual_income,
                planned_expenses_cents: planned_expenses,
                actual_expenses_cents: actual_expenses,
                planned_savings_cents: planned_savings,
                actual_savings_cents: actual_savings,
            },
        )
    }
}

} // verus!
