use finplan::calendar::Date;
use finplan::database::Database;
use finplan::secrets::AppSecrets;
use finplan::services::budgets::{BudgetPeriod, BudgetType};
use finplan::services::dashboard::build_weekly_series;
use finplan::services::goals::GoalStatus;
use finplan::services::planning::{
    AddPlannedExpenseInput, AddPlannedIncomeInput, AddPlannedSavingInput, CreateMonthlyPlanInput,
    DeletePlannedIncomeInput, PlanningService, UpdatePlannedIncomeInput,
};
use finplan::services::reminders::{ReminderChannel, ReminderStatus};
use finplan::services::reports::SqliteReportService;
use finplan::services::transactions::TransactionKind;

fn planning() -> PlanningService {
    PlanningService::new("seed-user".to_string()).unwrap()
}

#[test]
fn creates_plan_and_income() {
    let svc = planning();
    let mut db = Database::new();
    let plan = svc
        .create_monthly_plan(
            &mut db,
            CreateMonthlyPlanInput {
                month: "2025-12-01".into(),
                total_planned_income_cents: Some(1000),
                total_planned_expenses_cents: Some(800),
                total_planned_savings_cents: Some(200),
                note: None,
            },
        )
        .unwrap();
    assert_eq!(plan.month, "2025-12-01");
    let income = svc
        .add_planned_income(
            &mut db,
            AddPlannedIncomeInput {
                monthly_plan_id: plan.id.clone(),
                source_name: "Salary".into(),
                kind: "salary".into(),
                expected_amount_cents: 1000,
                expected_date: Some("2025-12-05".into()),
                is_fixed: Some(true),
                account_id: None,
            },
        )
        .unwrap();
    assert_eq!(income.expected_amount_cents, 1000);

    let list = svc.list_monthly_plans(&db).unwrap();
    assert_eq!(list.len(), 1);

    let exp = svc
        .add_planned_expense(
            &mut db,
            AddPlannedExpenseInput {
                monthly_plan_id: plan.id.clone(),
                label: "Groceries".into(),
                category_id: None,
                expected_amount_cents: 200,
                frequency: Some("monthly".into()),
            },
        )
        .unwrap();
    assert_eq!(exp.expected_amount_cents, 200);
    let incomes = svc.list_incomes(&db, &plan.id).unwrap();
    assert_eq!(incomes.len(), 1);
    let expenses = svc.list_expenses(&db, &plan.id).unwrap();
    assert_eq!(expenses.len(), 1);
}

#[test]
fn plan_totals_stay_in_sync() {
    let svc = planning();
    let mut db = Database::new();
    let plan = svc
        .create_monthly_plan(
            &mut db,
            CreateMonthlyPlanInput {
                month: "2025-06-01".into(),
                total_planned_income_cents: None,
                total_planned_expenses_cents: None,
                total_planned_savings_cents: None,
                note: Some("June".into()),
            },
        )
        .unwrap();
    assert_eq!(plan.total_planned_income_cents, 0);

    let income = svc
        .add_planned_income(
            &mut db,
            AddPlannedIncomeInput {
                monthly_plan_id: plan.id.clone(),
                source_name: "Salary".into(),
                kind: "salary".into(),
                expected_amount_cents: 250_000,
                expected_date: None,
                is_fixed: None,
                account_id: None,
            },
        )
        .unwrap();
    svc.add_planned_saving(
        &mut db,
        AddPlannedSavingInput {
            monthly_plan_id: plan.id.clone(),
            goal_id: None,
            expected_amount_cents: 40_000,
        },
    )
    .unwrap();
    assert_eq!(db.monthly_plans[0].total_planned_income_cents, 250_000);
    assert_eq!(db.monthly_plans[0].total_planned_savings_cents, 40_000);

    // Raising the expected amount re-syncs the rolled-up total.
    svc.update_income(
        &mut db,
        UpdatePlannedIncomeInput {
            id: income.id.clone(),
            source_name: None,
            kind: None,
            expected_amount_cents: Some(300_000),
            expected_date: None,
            is_fixed: None,
            account_id: None,
            actual_amount_cents: Some(290_000),
            status: Some("received".into()),
        },
    )
    .unwrap();
    assert_eq!(db.monthly_plans[0].total_planned_income_cents, 300_000);

    svc.delete_income(&mut db, DeletePlannedIncomeInput { id: income.id }).unwrap();
    assert_eq!(db.monthly_plans[0].total_planned_income_cents, 0);
}

#[test]
fn plan_vs_actual_sums_the_month() {
    let svc = planning();
    let mut db = Database::new();
    let plan = svc
        .create_monthly_plan(
            &mut db,
            CreateMonthlyPlanInput {
                month: "2025-03-01".into(),
                total_planned_income_cents: None,
                total_planned_expenses_cents: None,
                total_planned_savings_cents: None,
                note: None,
            },
        )
        .unwrap();
    svc.add_planned_expense(
        &mut db,
        AddPlannedExpenseInput {
            monthly_plan_id: plan.id.clone(),
            label: "Loan".into(),
            category_id: None,
            expected_amount_cents: 11_000,
            frequency: None,
        },
    )
    .unwrap();

    // A confirmed debt payment inside March lands in the ledger and
    // shows up as an actual expense.
    let debt = svc
        .add_debt_account(
            &mut db,
            finplan::services::planning::AddDebtAccountInput {
                name: "Loan".into(),
                kind: "loan".into(),
                principal_cents: 120_000,
                interest_rate_bps: 1200,
                min_monthly_payment_cents: 11_000,
                due_day: 15,
                start_date: Date { year: 2025, month: 1, day: 1 },
            },
        )
        .unwrap();
    let rows = svc
        .generate_debt_schedule(
            &mut db,
            finplan::services::planning::GenerateDebtScheduleInput {
                debt_account_id: debt.id.clone(),
                months: Some(1),
            },
            Date { year: 2025, month: 3, day: 1 },
        )
        .unwrap();
    svc.confirm_debt_payment(
        &mut db,
        finplan::services::planning::ConfirmDebtPaymentInput {
            schedule_id: rows[0].id.clone(),
            account_id: Some("acct".into()),
            category_id: None,
        },
    )
    .unwrap();

    let summary = svc.plan_vs_actual(&db, &plan.id).unwrap();
    assert_eq!(summary.planned_expenses_cents, 11_000);
    assert_eq!(summary.actual_expenses_cents, 11_000);
    assert_eq!(summary.actual_income_cents, 0);
    assert_eq!(summary.planned_savings_cents, 0);
}

#[test]
fn test_cache_key_generation() {
    let service = SqliteReportService::new(Some("test-user".to_string())).unwrap();
    let key = service.get_cache_key("monthly_report", "2025-01");
    assert_eq!(key, "monthly_report:test-user:2025-01");
}

#[test]
fn fills_weekly_series_with_zeroes() {
    let week_start = Date { year: 2025, month: 1, day: 1 };
    let map = vec![
        ("2025-01-01".to_string(), 1200i64),
        ("2025-01-06".to_string(), 8300i64),
    ];
    let series = build_weekly_series(week_start, &map);
    assert_eq!(series.len(), 7);
    assert_eq!(series[0].date, "2025-01-01");
    assert_eq!(series[0].amount_cents, 1200);
    assert_eq!(series[1].date, "2025-01-02");
    assert_eq!(series[1].amount_cents, 0);
    assert_eq!(series[5].date, "2025-01-06");
    assert_eq!(series[5].amount_cents, 8300);
    assert_eq!(series[6].date, "2025-01-07");
    assert_eq!(series[6].amount_cents, 0);
}

#[test]
fn weekly_series_crosses_month_boundaries() {
    let week_start = Date { year: 2024, month: 2, day: 27 };
    let series = build_weekly_series(week_start, &Vec::new());
    // 2024 is a leap year: February has 29 days.
    assert_eq!(series[2].date, "2024-02-29");
    assert_eq!(series[3].date, "2024-03-01");
}

#[test]
fn canonical_encodings() {
    assert_eq!(BudgetPeriod::Weekly.as_str(), "weekly");
    assert_eq!(BudgetPeriod::Monthly.as_str(), "monthly");
    assert_eq!(BudgetPeriod::Quarterly.as_str(), "quarterly");
    assert_eq!(BudgetPeriod::Yearly.as_str(), "yearly");
    assert_eq!(BudgetType::Envelope.as_str(), "envelope");
    assert_eq!(BudgetType::Overall.as_str(), "overall");
    assert_eq!(GoalStatus::Active.as_str(), "active");
    assert_eq!(GoalStatus::Abandoned.as_str(), "abandoned");
    assert_eq!(TransactionKind::Income.as_str(), "income");
    assert_eq!(TransactionKind::Transfer.as_str(), "transfer");
    assert_eq!(ReminderChannel::InApp.as_str(), "in_app");
    assert_eq!(ReminderStatus::Snoozed.as_str(), "snoozed");
}

#[test]
fn balance_deltas_by_kind() {
    assert_eq!(TransactionKind::Income.balance_delta(500), 500);
    assert_eq!(TransactionKind::Expense.balance_delta(500), -500);
    assert_eq!(TransactionKind::Transfer.balance_delta(500), 0);
}

#[test]
fn secrets_carry_the_key() {
    let secrets = AppSecrets::new("SECRET-REDACTED".to_string());
    assert_eq!(secrets.sqlcipher_key(), "SECRET-REDACTED");
}

#[test]
fn descriptors_name_their_services() {
    let planning = planning();
    let d = planning.descriptor();
    assert_eq!(d.name, "PlanningService");
    assert_eq!(d.provider, "sqlite");
    let reminders =
        finplan::services::reminders::SqliteReminderService::new(Some("u".into())).unwrap();
    let d = reminders.descriptor();
    assert_eq!(d.name, "ReminderService");
}

#[test]
fn debt_validation_rejects_bad_input() {
    let svc = planning();
    let mut db = Database::new();
    let mut bad = finplan::services::planning::AddDebtAccountInput {
        name: "x".into(),
        kind: "loan".into(),
        principal_cents: 1000,
        interest_rate_bps: -1,
        min_monthly_payment_cents: 100,
        due_day: 15,
        start_date: Date { year: 2025, month: 1, day: 1 },
    };
    assert!(svc.add_debt_account(&mut db, bad.clone()).is_err());
    bad.interest_rate_bps = 0;
    bad.due_day = 32;
    assert!(svc.add_debt_account(&mut db, bad.clone()).is_err());
    bad.due_day = 0;
    assert!(svc.add_debt_account(&mut db, bad.clone()).is_err());
    bad.due_day = 31;
    assert!(svc.add_debt_account(&mut db, bad).is_ok());

    let missing = svc.generate_debt_schedule(
        &mut db,
        finplan::services::planning::GenerateDebtScheduleInput {
            debt_account_id: "nope".into(),
            months: None,
        },
        Date { year: 2025, month: 1, day: 1 },
    );
    assert!(matches!(missing, Err(finplan::services::planning::PlanningError::Validation(_))));
}

#[test]
fn saving_lines_update_and_delete() {
    let svc = planning();
    let mut db = Database::new();
    let plan = svc
        .create_monthly_plan(
            &mut db,
            CreateMonthlyPlanInput {
                month: "2025-07-01".into(),
                total_planned_income_cents: None,
                total_planned_expenses_cents: None,
                total_planned_savings_cents: None,
                note: None,
            },
        )
        .unwrap();
    let saving = svc
        .add_planned_saving(
            &mut db,
            AddPlannedSavingInput {
                monthly_plan_id: plan.id.clone(),
                goal_id: Some("goal-1".into()),
                expected_amount_cents: 10_000,
            },
        )
        .unwrap();
    assert_eq!(saving.goal_id.as_deref(), Some("goal-1"));

    let updated = svc
        .update_saving(
            &mut db,
            finplan::services::planning::UpdatePlannedSavingInput {
                id: saving.id.clone(),
                goal_id: None,
                expected_amount_cents: Some(12_000),
                actual_amount_cents: Some(5_000),
            },
        )
        .unwrap();
    assert_eq!(updated.expected_amount_cents, 12_000);
    assert_eq!(updated.actual_amount_cents, 5_000);
    assert_eq!(db.monthly_plans[0].total_planned_savings_cents, 12_000);
    assert_eq!(svc.list_savings(&db, &plan.id).unwrap().len(), 1);

    svc.delete_saving(
        &mut db,
        finplan::services::planning::DeletePlannedSavingInput { id: saving.id },
    )
    .unwrap();
    assert!(svc.list_savings(&db, &plan.id).unwrap().is_empty());
    assert_eq!(db.monthly_plans[0].total_planned_savings_cents, 0);
}

#[test]
fn expense_delete_resyncs_totals() {
    let svc = planning();
    let mut db = Database::new();
    let plan = svc
        .create_monthly_plan(
            &mut db,
            CreateMonthlyPlanInput {
                month: "2025-08-01".into(),
                total_planned_income_cents: None,
                total_planned_expenses_cents: None,
                total_planned_savings_cents: None,
                note: None,
            },
        )
        .unwrap();
    let exp = svc
        .add_planned_expense(
            &mut db,
            AddPlannedExpenseInput {
                monthly_plan_id: plan.id.clone(),
                label: "Rent".into(),
                category_id: None,
                expected_amount_cents: 95_000,
                frequency: None,
            },
        )
        .unwrap();
    assert_eq!(exp.frequency, "once");
    assert_eq!(db.monthly_plans[0].total_planned_expenses_cents, 95_000);
    svc.delete_expense(
        &mut db,
        finplan::services::planning::DeletePlannedExpenseInput { id: exp.id },
    )
    .unwrap();
    assert_eq!(db.monthly_plans[0].total_planned_expenses_cents, 0);
}

#[test]
fn amount_validation_rejects_out_of_range() {
    let svc = planning();
    let mut db = Database::new();
    let plan = svc
        .create_monthly_plan(
            &mut db,
            CreateMonthlyPlanInput {
                month: "2025-09-01".into(),
                total_planned_income_cents: None,
                total_planned_expenses_cents: None,
                total_planned_savings_cents: None,
                note: None,
            },
        )
        .unwrap();
    let err = svc
        .add_planned_income(
            &mut db,
            AddPlannedIncomeInput {
                monthly_plan_id: plan.id,
                source_name: "x".into(),
                kind: "other".into(),
                expected_amount_cents: -1,
                expected_date: None,
                is_fixed: None,
                account_id: None,
            },
        )
        .unwrap_err();
    assert!(matches!(err, finplan::services::planning::PlanningError::Validation(_)));
}

#[test]
fn plan_vs_actual_rejects_bad_month() {
    let svc = planning();
    let mut db = Database::new();
    let plan = svc
        .create_monthly_plan(
            &mut db,
            CreateMonthlyPlanInput {
                month: "December".into(),
                total_planned_income_cents: None,
                total_planned_expenses_cents: None,
                total_planned_savings_cents: None,
                note: None,
            },
        )
        .unwrap();
    let err = svc.plan_vs_actual(&db, &plan.id).unwrap_err();
    assert!(matches!(err, finplan::services::planning::PlanningError::Validation(_)));
    let err = svc.plan_vs_actual(&db, "missing").unwrap_err();
    assert!(matches!(err, finplan::services::planning::PlanningError::Validation(_)));
}
