use finplan::calendar::Date;
use finplan::database::Database;
use finplan::recurrence::{next_fire_at, parse_rule, RecurrenceRule};
use finplan::services::planning::{
    AddDebtAccountInput, ConfirmDebtPaymentInput, GenerateDebtScheduleInput, PlanningService,
};

fn planning() -> PlanningService {
    PlanningService::new("seed-user".to_string()).unwrap()
}

fn sample_debt() -> AddDebtAccountInput {
    AddDebtAccountInput {
        name: "Car loan".to_string(),
        kind: "loan".to_string(),
        principal_cents: 120_000,
        interest_rate_bps: 1200,
        min_monthly_payment_cents: 11_000,
        due_day: 15,
        start_date: Date { year: 2025, month: 1, day: 1 },
    }
}

#[test]
fn amortization_splits_interest_and_principal() {
    // principal 1200.00, 12% annual, payment 110.00:
    // month 1 interest 12.00, principal 98.00, balance 1102.00;
    // month 2 recomputes interest on 1102.00.
    let svc = planning();
    let mut db = Database::new();
    let debt = svc.add_debt_account(&mut db, sample_debt()).unwrap();
    let today = Date { year: 2025, month: 3, day: 1 };
    let rows = svc
        .generate_debt_schedule(
            &mut db,
            GenerateDebtScheduleInput { debt_account_id: debt.id.clone(), months: Some(2) },
            today,
        )
        .unwrap();
    assert_eq!(rows.len(), 2);
    assert_eq!(rows[0].planned_interest_cents, 1200);
    assert_eq!(rows[0].planned_principal_cents, 9800);
    assert_eq!(rows[0].planned_payment_cents, 11_000);
    assert_eq!(rows[1].planned_interest_cents, 1102);
    assert_eq!(rows[1].planned_principal_cents, 11_000 - 1102);
}

#[test]
fn generation_is_idempotent() {
    let svc = planning();
    let mut db = Database::new();
    let debt = svc.add_debt_account(&mut db, sample_debt()).unwrap();
    let today = Date { year: 2025, month: 3, day: 1 };
    let input = GenerateDebtScheduleInput { debt_account_id: debt.id.clone(), months: Some(6) };
    let first = svc.generate_debt_schedule(&mut db, input.clone(), today).unwrap();
    assert_eq!(first.len(), 6);
    let second = svc.generate_debt_schedule(&mut db, input, today).unwrap();
    assert_eq!(second.len(), 0);
    assert_eq!(db.schedules.len(), 6);
}

#[test]
fn due_day_passed_starts_next_month() {
    let svc = planning();
    let mut db = Database::new();
    let debt = svc.add_debt_account(&mut db, sample_debt()).unwrap();
    // Today is the 20th, past the 15th: generation starts next month.
    let today = Date { year: 2025, month: 3, day: 20 };
    let rows = svc
        .generate_debt_schedule(
            &mut db,
            GenerateDebtScheduleInput { debt_account_id: debt.id.clone(), months: Some(1) },
            today,
        )
        .unwrap();
    assert_eq!(rows.len(), 1);
    assert_eq!(rows[0].due_date, Date { year: 2025, month: 4, day: 15 });
}

#[test]
fn recurrence_daily_first_fire_after_now() {
    // nextFireAt(dueAt=T, Daily, now=T+3.5 days) == T+4 days.
    let t = 1_000_000_000i64;
    let now = t + 3 * 86_400 + 43_200;
    let next = next_fire_at(t, Some(RecurrenceRule::Daily), now);
    assert_eq!(next, Some(t + 4 * 86_400));
}

#[test]
fn recurrence_future_due_fires_at_due() {
    let t = 1_000_000_000i64;
    assert_eq!(next_fire_at(t, None, t - 100), Some(t));
    assert_eq!(next_fire_at(t, Some(RecurrenceRule::Weekly), t - 100), Some(t));
}

#[test]
fn recurrence_terminal_without_rule() {
    let t = 1_000_000_000i64;
    assert_eq!(next_fire_at(t, None, t), None);
    assert_eq!(next_fire_at(t, None, t + 5), None);
}

#[test]
fn rule_strings_parse_to_closed_variants() {
    assert_eq!(parse_rule("DAILY"), Some(RecurrenceRule::Daily));
    assert_eq!(parse_rule("FREQ=DAILY;INTERVAL=1"), Some(RecurrenceRule::Daily));
    assert_eq!(parse_rule("WEEKLY"), Some(RecurrenceRule::Weekly));
    assert_eq!(parse_rule("FREQ=WEEKLY"), Some(RecurrenceRule::Weekly));
    assert_eq!(parse_rule("MONTHLY"), Some(RecurrenceRule::Monthly));
    assert_eq!(parse_rule("FREQ=MONTHLY;BYDAY=MO"), Some(RecurrenceRule::Monthly));
    assert_eq!(parse_rule("YEARLY"), None);
    assert_eq!(parse_rule(""), None);
}

#[test]
fn end_to_end_generate_list_confirm() {
    let svc = planning();
    let mut db = Database::new();
    let debt = svc.add_debt_account(&mut db, sample_debt()).unwrap();
    let today = Date { year: 2025, month: 3, day: 1 };
    let rows = svc
        .generate_debt_schedule(
            &mut db,
            GenerateDebtScheduleInput { debt_account_id: debt.id.clone(), months: Some(3) },
            today,
        )
        .unwrap();
    assert_eq!(rows.len(), 3);

    let listed = svc.list_schedules(&db, &debt.id).unwrap();
    assert_eq!(listed.len(), 3);
    for pair in listed.windows(2) {
        let a = &pair[0].due_date;
        let b = &pair[1].due_date;
        assert!((a.year, a.month, a.day) <= (b.year, b.month, b.day));
    }

    let confirmed = svc
        .confirm_debt_payment(
            &mut db,
            ConfirmDebtPaymentInput {
                schedule_id: listed[0].id.clone(),
                account_id: Some("acct-checking".to_string()),
                category_id: None,
            },
        )
        .unwrap();
    assert!(confirmed.is_paid);
    assert!(confirmed.transaction_id.is_some());
    assert_eq!(db.transactions.len(), 1);
    assert_eq!(db.transactions[0].amount_cents, 11_000);
    assert_eq!(db.transactions[0].currency, "GBP");
}

#[test]
fn generation_emits_companion_reminders() {
    let svc = planning();
    let mut db = Database::new();
    let debt = svc.add_debt_account(&mut db, sample_debt()).unwrap();
    let today = Date { year: 2025, month: 1, day: 10 };
    let rows = svc
        .generate_debt_schedule(
            &mut db,
            GenerateDebtScheduleInput { debt_account_id: debt.id.clone(), months: Some(1) },
            today,
        )
        .unwrap();
    assert_eq!(rows.len(), 1);
    assert_eq!(db.reminders.len(), 1);
    let companion = &db.reminders[0];
    assert_eq!(companion.title, "Debt payment: Car loan");
    assert_eq!(companion.description.as_deref(), Some("Due by 2025-01-15"));
    assert_eq!(companion.amount_cents, Some(11_000));
    // 2025-01-15 09:00:00 UTC
    assert_eq!(companion.due_at, 1_736_931_600);
    assert_eq!(companion.next_fire_at, Some(1_736_931_600));
}

#[test]
fn months_cap_is_validated() {
    let svc = planning();
    let mut db = Database::new();
    let debt = svc.add_debt_account(&mut db, sample_debt()).unwrap();
    let err = svc
        .generate_debt_schedule(
            &mut db,
            GenerateDebtScheduleInput { debt_account_id: debt.id, months: Some(601) },
            Date { year: 2025, month: 3, day: 1 },
        )
        .unwrap_err();
    assert!(matches!(err, finplan::services::planning::PlanningError::Validation(_)));
}

#[test]
fn generated_amounts_are_never_negative() {
    let svc = planning();
    let mut db = Database::new();
    let mut input = sample_debt();
    // A payment below the first month's interest: principal clamps at
    // zero and the balance never drops below zero either.
    input.min_monthly_payment_cents = 500;
    let debt = svc.add_debt_account(&mut db, input).unwrap();
    let rows = svc
        .generate_debt_schedule(
            &mut db,
            GenerateDebtScheduleInput { debt_account_id: debt.id, months: Some(12) },
            Date { year: 2025, month: 1, day: 1 },
        )
        .unwrap();
    assert_eq!(rows.len(), 12);
    for row in &rows {
        assert!(row.planned_interest_cents >= 0);
        assert!(row.planned_principal_cents >= 0);
        assert!(row.planned_payment_cents >= 0);
    }
}

#[test]
fn short_months_fall_back_to_the_first() {
    let svc = planning();
    let mut db = Database::new();
    let mut input = sample_debt();
    input.due_day = 31;
    let debt = svc.add_debt_account(&mut db, input).unwrap();
    let rows = svc
        .generate_debt_schedule(
            &mut db,
            GenerateDebtScheduleInput { debt_account_id: debt.id, months: Some(2) },
            Date { year: 2025, month: 1, day: 1 },
        )
        .unwrap();
    // January has a 31st; February 2025 does not, so the due date falls
    // back to the cursor date: the first of the month.
    assert_eq!(rows[0].due_date, Date { year: 2025, month: 1, day: 31 });
    assert_eq!(rows[1].due_date, Date { year: 2025, month: 2, day: 1 });
}

#[test]
fn debt_update_and_delete() {
    let svc = planning();
    let mut db = Database::new();
    let debt = svc.add_debt_account(&mut db, sample_debt()).unwrap();
    let updated = svc
        .update_debt(
            &mut db,
            finplan::services::planning::UpdateDebtAccountInput {
                id: debt.id.clone(),
                name: Some("Car loan 2".to_string()),
                kind: None,
                principal_cents: None,
                interest_rate_bps: Some(1500),
                min_monthly_payment_cents: None,
                due_day: None,
                current_balance_cents: Some(100_000),
            },
        )
        .unwrap();
    assert_eq!(updated.name, "Car loan 2");
    assert_eq!(updated.interest_rate_bps, 1500);
    assert_eq!(updated.current_balance_cents, 100_000);

    let listed = svc.list_debts(&db).unwrap();
    assert_eq!(listed.len(), 1);
    assert_eq!(listed[0].name, "Car loan 2");

    svc.delete_debt(
        &mut db,
        finplan::services::planning::DeleteDebtAccountInput { id: debt.id },
    )
    .unwrap();
    assert!(svc.list_debts(&db).unwrap().is_empty());
}

#[test]
fn confirm_unknown_schedule_fails() {
    let svc = planning();
    let mut db = Database::new();
    let err = svc
        .confirm_debt_payment(
            &mut db,
            ConfirmDebtPaymentInput {
                schedule_id: "missing".to_string(),
                account_id: None,
                category_id: None,
            },
        )
        .unwrap_err();
    assert!(matches!(err, finplan::services::planning::PlanningError::Validation(_)));
}
