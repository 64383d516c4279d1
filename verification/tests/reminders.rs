use finplan::database::Database;
use finplan::services::reminders::{
    CreateReminderInput, DismissReminderInput, ReminderChannel, ReminderServiceError,
    ReminderStatus, SnoozeReminderInput, SqliteReminderService, UpdateReminderInput,
};

const DAY: i64 = 86_400;

fn service() -> SqliteReminderService {
    SqliteReminderService::new(None).unwrap()
}

fn base_input(due_at: &str) -> CreateReminderInput {
    CreateReminderInput {
        title: "Pay rent".to_string(),
        description: Some("Monthly rent".to_string()),
        account_id: None,
        amount_cents: Some(95_000),
        due_at: due_at.to_string(),
        recurrence_rule: None,
        channel: None,
        snooze_minutes: None,
    }
}

#[test]
fn create_parses_rfc3339_due_time() {
    let svc = service();
    let mut db = Database::new();
    let now = 1_700_000_000i64;
    let rem = svc
        .create_reminder(&mut db, base_input("2025-01-15T09:00:00Z"), now)
        .unwrap();
    // 2025-01-15 09:00:00 UTC as seconds since the epoch.
    assert_eq!(rem.due_at, 1_736_931_600);
    assert_eq!(rem.next_fire_at, Some(1_736_931_600));
    assert_eq!(rem.status, ReminderStatus::Scheduled);
    assert_eq!(rem.channel, ReminderChannel::Toast);
    assert_eq!(rem.user_id, "seed-user");
    assert_eq!(db.reminders.len(), 1);
    assert_eq!(db.reminder_logs.len(), 1);
    assert_eq!(db.reminder_logs[0].action, "created");
}

#[test]
fn create_rejects_malformed_due_time() {
    let svc = service();
    let mut db = Database::new();
    let err = svc
        .create_reminder(&mut db, base_input("not a timestamp"), 0)
        .unwrap_err();
    assert!(matches!(err, ReminderServiceError::Validation(_)));
    assert!(db.reminders.is_empty());
}

#[test]
fn create_rejects_past_due_without_rule() {
    let svc = service();
    let mut db = Database::new();
    // 2025-01-15 09:00 is in the past relative to this "now".
    let now = 1_736_931_600i64 + 100;
    let err = svc
        .create_reminder(&mut db, base_input("2025-01-15T09:00:00Z"), now)
        .unwrap_err();
    assert!(matches!(err, ReminderServiceError::Validation(_)));

    // With a rule it is accepted and armed strictly after now.
    let mut input = base_input("2025-01-15T09:00:00Z");
    input.recurrence_rule = Some("DAILY".to_string());
    let rem = svc.create_reminder(&mut db, input, now).unwrap();
    assert_eq!(rem.next_fire_at, Some(1_736_931_600 + DAY));
}

#[test]
fn get_update_delete_round_trip() {
    let svc = service();
    let mut db = Database::new();
    let rem = svc
        .create_reminder(&mut db, base_input("2025-01-15T09:00:00Z"), 0)
        .unwrap();

    let fetched = svc.get_reminder(&db, &rem.id).unwrap();
    assert_eq!(fetched.title, "Pay rent");

    let updated = svc
        .update_reminder(
            &mut db,
            UpdateReminderInput {
                id: rem.id.clone(),
                title: Some("Pay the rent".to_string()),
                description: None,
                account_id: None,
                amount_cents: Some(96_000),
                due_at: None,
                recurrence_rule: None,
                channel: Some(ReminderChannel::Email),
                snooze_minutes: None,
                status: None,
            },
            10,
        )
        .unwrap();
    assert_eq!(updated.title, "Pay the rent");
    assert_eq!(updated.amount_cents, Some(96_000));
    assert_eq!(updated.channel, ReminderChannel::Email);
    assert_eq!(updated.description.as_deref(), Some("Monthly rent"));

    svc.delete_reminder(&mut db, &rem.id).unwrap();
    assert!(db.reminders.is_empty());
    let err = svc.get_reminder(&db, &rem.id).unwrap_err();
    assert!(matches!(err, ReminderServiceError::NotFound(_)));
    let err = svc.delete_reminder(&mut db, &rem.id).unwrap_err();
    assert!(matches!(err, ReminderServiceError::NotFound(_)));
}

#[test]
fn snooze_pushes_next_fire_out() {
    let svc = service();
    let mut db = Database::new();
    let rem = svc
        .create_reminder(&mut db, base_input("2025-01-15T09:00:00Z"), 0)
        .unwrap();
    let due = 1_736_931_600i64;

    let err = svc
        .snooze_reminder(&mut db, SnoozeReminderInput { id: rem.id.clone(), snooze_minutes: 0 }, 0)
        .unwrap_err();
    assert!(matches!(err, ReminderServiceError::Validation(_)));

    // Snoozing before the fire time counts from the fire time.
    let snoozed = svc
        .snooze_reminder(
            &mut db,
            SnoozeReminderInput { id: rem.id.clone(), snooze_minutes: 30 },
            0,
        )
        .unwrap();
    assert_eq!(snoozed.next_fire_at, Some(due + 30 * 60));
    assert_eq!(snoozed.due_at, due + 30 * 60);
    assert_eq!(snoozed.status, ReminderStatus::Snoozed);
    assert_eq!(snoozed.snooze_minutes, Some(30));
    let last = db.reminder_logs.last().unwrap();
    assert_eq!(last.action, "snoozed");
    assert_eq!(last.metadata.as_deref(), Some("30 minutes"));
}

#[test]
fn dismiss_disarms_the_reminder() {
    let svc = service();
    let mut db = Database::new();
    let rem = svc
        .create_reminder(&mut db, base_input("2025-01-15T09:00:00Z"), 0)
        .unwrap();
    let dismissed = svc
        .dismiss_reminder(&mut db, DismissReminderInput { id: rem.id.clone() }, 5)
        .unwrap();
    assert_eq!(dismissed.status, ReminderStatus::Dismissed);
    assert_eq!(dismissed.next_fire_at, None);
    let due = svc.get_due_reminders(&db, i64::MAX / 2).unwrap();
    assert!(due.is_empty());
}

#[test]
fn mark_sent_rearms_recurring_reminders() {
    let svc = service();
    let mut db = Database::new();
    let mut input = base_input("2025-01-15T09:00:00Z");
    input.recurrence_rule = Some("WEEKLY".to_string());
    let rem = svc.create_reminder(&mut db, input, 0).unwrap();
    let due = 1_736_931_600i64;

    // Fire it three days after it came due: the next occurrence is one
    // week on the grid, strictly after now.
    let now = due + 3 * DAY;
    let sent = svc.mark_reminder_sent(&mut db, &rem.id, now).unwrap();
    assert_eq!(sent.status, ReminderStatus::Scheduled);
    assert_eq!(sent.next_fire_at, Some(due + 7 * DAY));
    assert_eq!(sent.last_triggered_at, Some(now));
    assert_eq!(db.reminder_logs.last().unwrap().action, "sent");
}

#[test]
fn mark_sent_terminal_for_one_shot_reminders() {
    let svc = service();
    let mut db = Database::new();
    let rem = svc
        .create_reminder(&mut db, base_input("2025-01-15T09:00:00Z"), 0)
        .unwrap();
    let now = 1_736_931_600i64 + 10;
    let sent = svc.mark_reminder_sent(&mut db, &rem.id, now).unwrap();
    assert_eq!(sent.status, ReminderStatus::Sent);
    assert_eq!(sent.next_fire_at, None);
    // Terminal: never due again, at any later time.
    let due = svc.get_due_reminders(&db, now + 1000 * DAY).unwrap();
    assert!(due.is_empty());
}

#[test]
fn due_query_returns_due_sorted_by_fire_time() {
    let svc = service();
    let mut db = Database::new();
    let mut early = base_input("2025-01-10T09:00:00Z");
    early.title = "early".to_string();
    let mut late = base_input("2025-01-20T09:00:00Z");
    late.title = "late".to_string();
    let mut future = base_input("2030-01-01T09:00:00Z");
    future.title = "future".to_string();
    svc.create_reminder(&mut db, late, 0).unwrap();
    svc.create_reminder(&mut db, early, 0).unwrap();
    svc.create_reminder(&mut db, future, 0).unwrap();

    // Poll at a time after both January reminders are due.
    let now = 1_737_500_000i64;
    let due = svc.get_due_reminders(&db, now).unwrap();
    assert_eq!(due.len(), 2);
    assert_eq!(due[0].title, "early");
    assert_eq!(due[1].title, "late");
    assert!(due[0].next_fire_at.unwrap() <= due[1].next_fire_at.unwrap());
}

#[test]
fn poll_cycle_fires_once_per_occurrence() {
    // The poller's cycle: fetch due, dispatch, mark sent. A one-shot
    // reminder fires exactly once.
    let svc = service();
    let mut db = Database::new();
    let rem = svc
        .create_reminder(&mut db, base_input("2025-01-15T09:00:00Z"), 0)
        .unwrap();
    let now = 1_736_931_600i64 + 60;

    let due = svc.get_due_reminders(&db, now).unwrap();
    assert_eq!(due.len(), 1);
    assert_eq!(due[0].id, rem.id);
    svc.mark_reminder_sent(&mut db, &due[0].id, now).unwrap();

    let again = svc.get_due_reminders(&db, now + 60).unwrap();
    assert!(again.is_empty());
}

#[test]
fn list_reminders_orders_by_next_fire() {
    let svc = service();
    let mut db = Database::new();
    let mut a = base_input("2025-02-01T00:00:00Z");
    a.title = "second".to_string();
    let mut b = base_input("2025-01-01T00:00:00Z");
    b.title = "first".to_string();
    svc.create_reminder(&mut db, a, 0).unwrap();
    svc.create_reminder(&mut db, b, 0).unwrap();
    let listed = svc.list_reminders(&db).unwrap();
    assert_eq!(listed.len(), 2);
    assert_eq!(listed[0].title, "first");
    assert_eq!(listed[1].title, "second");
}

#[test]
fn update_can_move_the_due_time_and_rule() {
    let svc = service();
    let mut db = Database::new();
    let rem = svc
        .create_reminder(&mut db, base_input("2025-01-15T09:00:00Z"), 0)
        .unwrap();
    let updated = svc
        .update_reminder(
            &mut db,
            UpdateReminderInput {
                id: rem.id.clone(),
                title: None,
                description: None,
                account_id: None,
                amount_cents: None,
                due_at: Some("2025-02-01T08:00:00+01:00".to_string()),
                recurrence_rule: Some("FREQ=DAILY".to_string()),
                channel: None,
                snooze_minutes: None,
                status: None,
            },
            0,
        )
        .unwrap();
    // 2025-02-01 08:00 at +01:00 is 07:00 UTC.
    assert_eq!(updated.due_at, 1_738_393_200);
    assert_eq!(updated.next_fire_at, Some(1_738_393_200));
    assert_eq!(
        updated.recurrence_rule,
        Some(finplan::recurrence::RecurrenceRule::Daily)
    );

    let err = svc
        .update_reminder(
            &mut db,
            UpdateReminderInput {
                id: rem.id.clone(),
                title: None,
                description: None,
                account_id: None,
                amount_cents: None,
                due_at: Some("never".to_string()),
                recurrence_rule: None,
                channel: None,
                snooze_minutes: None,
                status: None,
            },
            0,
        )
        .unwrap_err();
    assert!(matches!(err, ReminderServiceError::Validation(_)));
}
