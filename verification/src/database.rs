//! The ledger's state as a value: every table the engine touches, with
//! the well-formedness the services maintain. The services take a
//! `&mut Database`; what each call does to it is stated in its contract
//! over the tables' views.

use vstd::multiset::Multiset;
use vstd::prelude::*;

use crate::services::planning::{
    debt_wf, planned_amounts_wf, schedule_wf, DebtAccountDto, DebtAccountView, DebtScheduleDto,
    DebtScheduleView, MonthlyPlanDto, MonthlyPlanView, PlanRowView, PlannedExpenseRow,
    PlannedExpenseView, PlannedIncomeRow, PlannedIncomeView, PlannedSavingRow, PlannedSavingView,
};
use crate::services::reminders::{
    reminder_wf, ReminderDto, ReminderLogDto, ReminderLogView, ReminderView,
};
use crate::services::transactions::{TransactionDto, TransactionView};

verus! {

/// The tables of the ledger the engine reads and writes.
#[derive(Debug)]
pub struct Database {
    pub debts: Vec<DebtAccountDto>,
    pub schedules: Vec<DebtScheduleDto>,
    pub reminders: Vec<ReminderDto>,
    pub reminder_logs: Vec<ReminderLogDto>,
    pub transactions: Vec<TransactionDto>,
    pub monthly_plans: Vec<MonthlyPlanDto>,
    pub planned_incomes: Vec<PlannedIncomeRow>,
    pub planned_expenses: Vec<PlannedExpenseRow>,
    pub planned_savings: Vec<PlannedSavingRow>,
}

impl Database {
    /// The debt table's content.
    pub open spec fn debts_v(&self) -> Seq<DebtAccountView> {
        self.debts@.map_values(|r: DebtAccountDto| r@)
    }

    /// The schedule table's content.
    pub open spec fn schedules_v(&self) -> Seq<DebtScheduleView> {
        self.schedules@.map_values(|r: DebtScheduleDto| r@)
    }

    /// The reminder table's content.
    pub open spec fn reminders_v(&self) -> Seq<ReminderView> {
        self.reminders@.map_values(|r: ReminderDto| r@)
    }

    /// The reminder audit trail's content.
    pub open spec fn logs_v(&self) -> Seq<ReminderLogView> {
        self.reminder_logs@.map_values(|r: ReminderLogDto| r@)
    }

    /// The transaction table's content.
    pub open spec fn transactions_v(&self) -> Seq<TransactionView> {
        self.transactions@.map_values(|r: TransactionDto| r@)
    }

    /// The monthly-plan table's content.
    pub open spec fn plans_v(&self) -> Seq<MonthlyPlanView> {
        self.monthly_plans@.map_values(|r: MonthlyPlanDto| r@)
    }

    /// The planned-income table's content.
    pub open spec fn incomes_v(&self) -> Seq<PlanRowView<PlannedIncomeView>> {
        self.planned_incomes@.map_values(|r: PlannedIncomeRow| r@)
    }

    /// The planned-expense table's content.
    pub open spec fn expenses_v(&self) -> Seq<PlanRowView<PlannedExpenseView>> {
        self.planned_expenses@.map_values(|r: PlannedExpenseRow| r@)
    }

    /// The planned-saving table's content.
    pub open spec fn savings_v(&self) -> Seq<PlanRowView<PlannedSavingView>> {
        self.planned_savings@.map_values(|r: PlannedSavingRow| r@)
    }
}

/// Two schedule rows collide when they project the same due date for the
/// same debt: the `(debtAccountId, dueDate)` pair is the idempotency key.
pub open spec fn same_schedule_key(a: DebtScheduleView, b: DebtScheduleView) -> bool {
    a.debt_account_id == b.debt_account_id && a.due_date == b.due_date
}

/// The invariant every service call preserves:
/// - every debt account, schedule row and reminder is well-formed;
/// - at most one schedule row exists per `(debtAccountId, dueDate)` pair;
/// - ledger transaction amounts and planned-line amounts are in range.
pub open spec fn db_wf(db: Database) -> bool {
    &&& forall|i: int| 0 <= i < db.debts@.len() ==> debt_wf((#[trigger] db.debts@[i])@)
    &&& forall|i: int|
        0 <= i < db.schedules@.len() ==> schedule_wf((#[trigger] db.schedules@[i])@)
    &&& forall|i: int, j: int|
        0 <= i < j < db.schedules@.len() ==> !same_schedule_key(
            (#[trigger] db.schedules@[i])@,
            (#[trigger] db.schedules@[j])@,
        )
    &&& forall|i: int| 0 <= i < db.reminders@.len() ==> reminder_wf((#[trigger] db.reminders@[i])@)
    &&& forall|i: int|
        0 <= i < db.transactions@.len() ==> 0 <= (#[trigger] db.transactions@[i]).amount_cents
    &&& forall|i: int|
        0 <= i < db.planned_incomes@.len() ==> planned_amounts_wf(
            (#[trigger] db.planned_incomes@[i]).item.expected_amount_cents,
            db.planned_incomes@[i].item.actual_amount_cents,
        )
    &&& forall|i: int|
        0 <= i < db.planned_expenses@.len() ==> planned_amounts_wf(
            (#[trigger] db.planned_expenses@[i]).item.expected_amount_cents,
            db.planned_expenses@[i].item.actual_amount_cents,
        )
    &&& forall|i: int|
        0 <= i < db.planned_savings@.len() ==> planned_amounts_wf(
            (#[trigger] db.planned_savings@[i]).item.expected_amount_cents,
            db.planned_savings@[i].item.actual_amount_cents,
        )
}

/// The debt, schedule, transaction and planning tables of `a` and `b`
/// agree; the reminder tables may differ.
pub open spec fn db_same_except_reminders(a: Database, b: Database) -> bool {
    &&& a.debts@ == b.debts@
    &&& a.schedules@ == b.schedules@
    &&& a.transactions@ == b.transactions@
    &&& a.monthly_plans@ == b.monthly_plans@
    &&& a.planned_incomes@ == b.planned_incomes@
    &&& a.planned_expenses@ == b.planned_expenses@
    &&& a.planned_savings@ == b.planned_savings@
}

/// The reminder, transaction and planning tables of `a` and `b` agree;
/// the debt and schedule tables may differ.
pub open spec fn db_same_except_debts(a: Database, b: Database) -> bool {
    &&& a.reminders@ == b.reminders@
    &&& a.reminder_logs@ == b.reminder_logs@
    &&& a.transactions@ == b.transactions@
    &&& a.monthly_plans@ == b.monthly_plans@
    &&& a.planned_incomes@ == b.planned_incomes@
    &&& a.planned_expenses@ == b.planned_expenses@
    &&& a.planned_savings@ == b.planned_savings@
}

/// The debt, reminder-log and planning tables of `a` and `b` agree; the
/// schedule, reminder and transaction tables may differ.
pub open spec fn db_same_except_engine(a: Database, b: Database) -> bool {
    &&& a.debts@ == b.debts@
    &&& a.reminder_logs@ == b.reminder_logs@
    &&& a.monthly_plans@ == b.monthly_plans@
    &&& a.planned_incomes@ == b.planned_incomes@
    &&& a.planned_expenses@ == b.planned_expenses@
    &&& a.planned_savings@ == b.planned_savings@
}

/// The debt, schedule, reminder and transaction tables of `a` and `b`
/// agree; the planning tables may differ.
pub open spec fn db_same_except_planning(a: Database, b: Database) -> bool {
    &&& a.debts@ == b.debts@
    &&& a.schedules@ == b.schedules@
    &&& a.reminders@ == b.reminders@
    &&& a.reminder_logs@ == b.reminder_logs@
    &&& a.transactions@ == b.transactions@
}

impl Database {
    /// A fresh, empty ledger.
    pub fn new() -> (r: Database)
        ensures
            db_wf(r),
            r.debts@.len() == 0,
            r.schedules@.len() == 0,
            r.reminders@.len() == 0,
            r.reminder_logs@.len() == 0,
            r.transactions@.len() == 0,
            r.monthly_plans@.len() == 0,
            r.planned_incomes@.len() == 0,
            r.planned_expenses@.len() == 0,
            r.planned_savings@.len() == 0,
    {
        Database {
            debts: Vec::new(),
            schedules: Vec::new(),
            reminders: Vec::new(),
            reminder_logs: Vec::new(),
            transactions: Vec::new(),
            monthly_plans: Vec::new(),
            planned_incomes: Vec::new(),
            planned_expenses: Vec::new(),
            planned_savings: Vec::new(),
        }
    }
}

/// Every element of a filtered sequence occurs in the sequence it was
/// filtered from.
pub proof fn lemma_filter_elements_contained<A>(s: Seq<A>, pred: spec_fn(A) -> bool, i: int)
    requires
        0 <= i < s.filter(pred).len(),
    ensures
        s.contains(s.filter(pred)[i]),
    decreases s.len(),
{
    reveal(Seq::filter);
    if s.len() > 0 {
        let sub = s.drop_last().filter(pred);
        if i < sub.len() {
            lemma_filter_elements_contained(s.drop_last(), pred, i);
            let x = s.drop_last().filter(pred)[i];
            let k = choose|k: int| 0 <= k < s.drop_last().len() && s.drop_last()[k] == x;
            assert(s[k] == x);
        } else {
            assert(s.filter(pred)[i] == s.last());
        }
    }
}

/// Inserting into a sequence adds exactly one occurrence to its multiset.
pub proof fn lemma_insert_to_multiset<A>(s: Seq<A>, pos: int, x: A)
    requires
        0 <= pos <= s.len(),
    ensures
        s.insert(pos, x).to_multiset() =~= s.to_multiset().insert(x),
{
    broadcast use vstd::seq_lib::group_to_multiset_ensures;

    let left = s.take(pos);
    let right = s.skip(pos);
    assert(s =~= left + right);
    assert(s.insert(pos, x) =~= left + (seq![x] + right));
    vstd::seq_lib::lemma_multiset_commutative(left, right);
    vstd::seq_lib::lemma_multiset_commutative(seq![x], right);
    vstd::seq_lib::lemma_multiset_commutative(left, seq![x] + right);
    assert(seq![x] =~= Seq::<A>::empty().push(x));
    assert(seq![x].to_multiset() =~= Multiset::<A>::empty().insert(x));
}

} // verus!
